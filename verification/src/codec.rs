//! The event codec: from a kernel event mask to a short symbolic code.
//!
//! The code is read off an ordered table of (flag, symbol) rows: each row
//! whose flag is set in the mask contributes its symbol, in the order of the
//! table. A mask in which no row's flag is set is coded as `?`. Bits that no
//! row names are ignored.

use vstd::prelude::*;

verus! {

/// A file was read.
pub const FAN_ACCESS: u64 = 0x0000_0001;

/// A file was written.
pub const FAN_MODIFY: u64 = 0x0000_0002;

/// A file that was open for writing was closed.
pub const FAN_CLOSE_WRITE: u64 = 0x0000_0008;

/// A file that was open read-only was closed.
pub const FAN_CLOSE_NOWRITE: u64 = 0x0000_0010;

/// A file was opened.
pub const FAN_OPEN: u64 = 0x0000_0020;

/// A file was moved away from a watched directory.
pub const FAN_MOVED_FROM: u64 = 0x0000_0040;

/// A file was moved into a watched directory.
pub const FAN_MOVED_TO: u64 = 0x0000_0080;

/// A file was created.
pub const FAN_CREATE: u64 = 0x0000_0100;

/// A file was deleted.
pub const FAN_DELETE: u64 = 0x0000_0200;

/// Events on the children of a marked directory are wanted too.
pub const FAN_EVENT_ON_CHILD: u64 = 0x0800_0000;

/// The union of the flags that the codec has a symbol for.
pub const RECOGNIZED: u64 = 0x0000_03FB;

/// The number of rows of the code table.
pub const CODE_ROWS: usize = 9;

/// The code of a mask in which no recognized flag is set.
pub const NO_SYMBOL: char = '?';

/// A set of kernel event flags.
#[derive(Clone, Copy, Debug, PartialEq, Eq)]
pub struct EventMask {
    pub bits: u64,
}

/// The code table, in the order in which symbols appear in a code.
pub open spec fn code_table() -> Seq<(u64, char)> {
    seq![
        (FAN_OPEN, 'O'),
        (FAN_ACCESS, 'R'),
        (FAN_MODIFY, 'W'),
        (FAN_CLOSE_WRITE, 'C'),
        (FAN_CLOSE_NOWRITE, 'c'),
        (FAN_CREATE, '+'),
        (FAN_DELETE, 'D'),
        (FAN_MOVED_FROM, '<'),
        (FAN_MOVED_TO, '>'),
    ]
}

/// Whether every bit of `flag` is set in `bits`.
pub open spec fn has_flag(bits: u64, flag: u64) -> bool {
    bits & flag == flag
}

/// The symbols that the first `rows` rows of the table contribute for
/// `bits`.
pub open spec fn symbols(bits: u64, rows: nat) -> Seq<char>
    decreases rows,
{
    if rows == 0 {
        Seq::empty()
    } else {
        let before = symbols(bits, (rows - 1) as nat);
        let (flag, symbol) = code_table()[rows - 1];
        if has_flag(bits, flag) {
            before.push(symbol)
        } else {
            before
        }
    }
}

/// The code of the mask `bits`.
pub open spec fn code_of(bits: u64) -> Seq<char> {
    let s = symbols(bits, CODE_ROWS as nat);
    if s.len() == 0 {
        seq![NO_SYMBOL]
    } else {
        s
    }
}

impl EventMask {
    /// Whether every bit of `flag` is set in the mask.
    pub fn contains(self, flag: u64) -> (r: bool)
        ensures
            r == has_flag(self.bits, flag),
    {
        self.bits & flag == flag
    }
}

/// Row `i` of the code table.
pub fn code_row(i: usize) -> (row: (u64, char))
    requires
        i < CODE_ROWS,
    ensures
        row == code_table()[i as int],
{
    match i {
        0 => (FAN_OPEN, 'O'),
        1 => (FAN_ACCESS, 'R'),
        2 => (FAN_MODIFY, 'W'),
        3 => (FAN_CLOSE_WRITE, 'C'),
        4 => (FAN_CLOSE_NOWRITE, 'c'),
        5 => (FAN_CREATE, '+'),
        6 => (FAN_DELETE, 'D'),
        7 => (FAN_MOVED_FROM, '<'),
        _ => (FAN_MOVED_TO, '>'),
    }
}

/// The symbolic code of `mask`.
pub fn mask_to_code(mask: EventMask) -> (code: String)
    ensures
        code@ == code_of(mask.bits),
{
    let mut code = String::new();
    let mut i: usize = 0;
    while i < CODE_ROWS
        invariant
            i <= CODE_ROWS,
            code@ == symbols(mask.bits, i as nat),
        decreases CODE_ROWS - i,
    {
        let (flag, symbol) = code_row(i);
        if mask.contains(flag) {
            code.push(symbol);
        }
        i += 1;
    }
    if code.as_str().is_empty() {
        code.push(NO_SYMBOL);
    }
    code
}

/// Whether row `i` of the table puts the symbol `c` into the code of `bits`.
pub open spec fn row_gives(bits: u64, i: int, c: char) -> bool {
    code_table()[i].1 == c && has_flag(bits, code_table()[i].0)
}

/// Encoding is a function of the mask: equal masks have equal codes.
pub proof fn lemma_same_mask_same_code(a: EventMask, b: EventMask)
    requires
        a.bits == b.bits,
    ensures
        code_of(a.bits) == code_of(b.bits),
{
}

/// A code is never empty and never longer than the table.
pub proof fn lemma_code_len(bits: u64)
    ensures
        1 <= code_of(bits).len() <= CODE_ROWS,
{
    lemma_symbols_len(bits, CODE_ROWS as nat);
}

/// The first `rows` rows contribute at most one symbol each.
pub proof fn lemma_symbols_len(bits: u64, rows: nat)
    ensures
        symbols(bits, rows).len() <= rows,
    decreases rows,
{
    if rows > 0 {
        lemma_symbols_len(bits, (rows - 1) as nat);
    }
}

/// A symbol is among those of the first `rows` rows exactly when one of
/// these rows gives it.
pub proof fn lemma_symbols_members(bits: u64, rows: nat, c: char)
    requires
        rows <= CODE_ROWS,
    ensures
        symbols(bits, rows).contains(c) <==> exists|i: int|
            0 <= i < rows && #[trigger] row_gives(bits, i, c),
    decreases rows,
{
    if rows > 0 {
        let before = symbols(bits, (rows - 1) as nat);
        let now = symbols(bits, rows);
        lemma_symbols_members(bits, (rows - 1) as nat, c);
        if now.contains(c) {
            let k = choose|k: int| 0 <= k < now.len() && now[k] == c;
            if k < before.len() {
                assert(before[k] == c);
                let i = choose|i: int| 0 <= i < rows - 1 && #[trigger] row_gives(bits, i, c);
                assert(row_gives(bits, i, c));
            } else {
                assert(row_gives(bits, rows - 1, c));
            }
        }
        if exists|i: int| 0 <= i < rows && #[trigger] row_gives(bits, i, c) {
            let i = choose|i: int| 0 <= i < rows && #[trigger] row_gives(bits, i, c);
            if i < rows - 1 {
                assert(row_gives(bits, i, c));
                let k = choose|k: int| 0 <= k < before.len() && before[k] == c;
                assert(now[k] == c);
            } else {
                assert(now[now.len() - 1] == c);
            }
        }
    }
}

/// The symbol of a row is in the code exactly when the row's flag is set in
/// the mask.
pub proof fn lemma_symbol_iff_flag(bits: u64, row: int)
    requires
        0 <= row < CODE_ROWS,
    ensures
        code_of(bits).contains(code_table()[row].1) <==> has_flag(bits, code_table()[row].0),
{
    let c = code_table()[row].1;
    lemma_symbols_members(bits, CODE_ROWS as nat, c);
    if has_flag(bits, code_table()[row].0) {
        assert(row_gives(bits, row, c));
    }
    if code_of(bits).contains(c) {
        assert(symbols(bits, CODE_ROWS as nat).contains(c));
        let i = choose|i: int| 0 <= i < CODE_ROWS && #[trigger] row_gives(bits, i, c);
        assert(i == row);
    }
}

/// A mask in which no recognized flag is set is coded as `?`, and no other
/// mask has `?` in its code.
pub proof fn lemma_no_flag_no_symbol(bits: u64)
    ensures
        bits & RECOGNIZED == 0 ==> code_of(bits) == seq![NO_SYMBOL],
        bits & RECOGNIZED != 0 ==> !code_of(bits).contains(NO_SYMBOL),
{
    lemma_flags_cover(bits);
    lemma_symbols_members(bits, CODE_ROWS as nat, NO_SYMBOL);
    let s = symbols(bits, CODE_ROWS as nat);
    if bits & RECOGNIZED == 0 {
        if s.len() > 0 {
            lemma_symbols_members(bits, CODE_ROWS as nat, s[0]);
            assert(s.contains(s[0]));
        }
    } else {
        let i = choose|i: int| 0 <= i < CODE_ROWS && has_flag(bits, #[trigger] code_table()[i].0);
        lemma_symbols_members(bits, CODE_ROWS as nat, code_table()[i].1);
        assert(row_gives(bits, i, code_table()[i].1));
    }
}

/// Bits outside the table never change the code.
pub proof fn lemma_unrecognized_bits_ignored(bits: u64)
    ensures
        code_of(bits) == code_of(bits & RECOGNIZED),
{
    lemma_same_flags_same_symbols(bits, bits & RECOGNIZED, CODE_ROWS as nat);
}

/// A mask whose recognized flags are exactly "opened" and "read" is coded
/// as `OR`.
pub proof fn lemma_open_and_access(bits: u64)
    requires
        bits & RECOGNIZED == FAN_OPEN | FAN_ACCESS,
    ensures
        code_of(bits) == seq!['O', 'R'],
{
    lemma_unrecognized_bits_ignored(bits);
    let b = bits & RECOGNIZED;
    assert(b == 0x21) by (bit_vector)
        requires
            b == 0x20u64 | 0x01u64,
    ;
    assert(0x21u64 & 0x20 == 0x20 && 0x21u64 & 0x01 == 0x01 && 0x21u64 & 0x02 != 0x02 && 0x21u64
        & 0x08 != 0x08 && 0x21u64 & 0x10 != 0x10 && 0x21u64 & 0x100 != 0x100 && 0x21u64 & 0x200
        != 0x200 && 0x21u64 & 0x40 != 0x40 && 0x21u64 & 0x80 != 0x80) by (bit_vector);
    reveal_with_fuel(symbols, 10);
    assert(symbols(b, CODE_ROWS as nat) =~= seq!['O', 'R']);
}

/// Some row's flag is set in a mask exactly when the mask meets
/// [`RECOGNIZED`].
proof fn lemma_flags_cover(bits: u64)
    ensures
        bits & RECOGNIZED != 0 <==> exists|i: int|
            0 <= i < CODE_ROWS && has_flag(bits, #[trigger] code_table()[i].0),
{
    assert(bits & 0x3FB != 0 <==> (bits & 0x20 == 0x20 || bits & 0x01 == 0x01 || bits & 0x02
        == 0x02 || bits & 0x08 == 0x08 || bits & 0x10 == 0x10 || bits & 0x100 == 0x100 || bits
        & 0x200 == 0x200 || bits & 0x40 == 0x40 || bits & 0x80 == 0x80)) by (bit_vector);
    if bits & RECOGNIZED != 0 {
        let t = code_table();
        assert(has_flag(bits, t[0].0) || has_flag(bits, t[1].0) || has_flag(bits, t[2].0)
            || has_flag(bits, t[3].0) || has_flag(bits, t[4].0) || has_flag(bits, t[5].0)
            || has_flag(bits, t[6].0) || has_flag(bits, t[7].0) || has_flag(bits, t[8].0));
    }
}

/// Masks that agree on every row's flag have the same symbols.
proof fn lemma_same_flags_same_symbols(a: u64, b: u64, rows: nat)
    requires
        rows <= CODE_ROWS,
        b == a & RECOGNIZED,
    ensures
        symbols(a, rows) == symbols(b, rows),
    decreases rows,
{
    if rows > 0 {
        lemma_same_flags_same_symbols(a, b, (rows - 1) as nat);
        assert(((a & 0x3FB) & 0x20 == 0x20) == (a & 0x20 == 0x20) && ((a & 0x3FB) & 0x01 == 0x01)
            == (a & 0x01 == 0x01) && ((a & 0x3FB) & 0x02 == 0x02) == (a & 0x02 == 0x02) && ((a
            & 0x3FB) & 0x08 == 0x08) == (a & 0x08 == 0x08) && ((a & 0x3FB) & 0x10 == 0x10) == (a
            & 0x10 == 0x10) && ((a & 0x3FB) & 0x100 == 0x100) == (a & 0x100 == 0x100) && ((a
            & 0x3FB) & 0x200 == 0x200) == (a & 0x200 == 0x200) && ((a & 0x3FB) & 0x40 == 0x40)
            == (a & 0x40 == 0x40) && ((a & 0x3FB) & 0x80 == 0x80) == (a & 0x80 == 0x80))
            by (bit_vector);
    }
}

} // verus!
