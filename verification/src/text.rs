//! Character-level building blocks: whitespace, runs, fields, lines,
//! trimming, decimal numbers and padding, all stated over `Seq<char>`.

use vstd::prelude::*;

verus! {

/// Whether `c` carries the Unicode `White_Space` property.
pub open spec fn is_space(c: char) -> bool {
    let n = c as u32;
    ||| 0x09 <= n <= 0x0D
    ||| n == 0x20
    ||| n == 0x85
    ||| n == 0xA0
    ||| n == 0x1680
    ||| 0x2000 <= n <= 0x200A
    ||| n == 0x2028
    ||| n == 0x2029
    ||| n == 0x202F
    ||| n == 0x205F
    ||| n == 0x3000
}

/// The classes of characters that the scanners tell apart.
#[derive(Clone, Copy, Debug)]
pub enum CharClass {
    /// Whitespace.
    Blank,
    /// Anything but whitespace: what a field is made of.
    Ink,
    /// Anything but a line feed: what a line is made of.
    Inline,
}

impl CharClass {
    /// Whether `c` belongs to the class.
    pub open spec fn has(self, c: char) -> bool {
        match self {
            CharClass::Blank => is_space(c),
            CharClass::Ink => !is_space(c),
            CharClass::Inline => c != '\n',
        }
    }

    /// Decides [`CharClass::has`].
    pub fn contains(self, c: char) -> (r: bool)
        ensures
            r == self.has(c),
    {
        match self {
            CharClass::Blank => is_whitespace(c),
            CharClass::Ink => !is_whitespace(c),
            CharClass::Inline => c != '\n',
        }
    }
}

/// Length of the longest prefix of `s` whose characters all belong to `class`.
pub open spec fn run_len(s: Seq<char>, class: CharClass) -> nat
    decreases s.len(),
{
    if s.len() == 0 || !class.has(s[0]) {
        0
    } else {
        1 + run_len(s.drop_first(), class)
    }
}

/// The whitespace-separated fields of `s`: its maximal runs of
/// non-whitespace characters, from left to right.
pub open spec fn fields(s: Seq<char>) -> Seq<Seq<char>>
    decreases s.len(),
{
    if s.len() == 0 {
        Seq::empty()
    } else if is_space(s[0]) {
        fields(s.drop_first())
    } else {
        let n = run_len(s, CharClass::Ink) as int;
        proof {
            lemma_run_len_bounds(s, CharClass::Ink);
        }
        seq![s.take(n)] + fields(s.skip(n))
    }
}

/// The lines of `s`: the stretches between line feeds. A line feed ends a
/// line and is not part of it; text after the last line feed is a line of
/// its own unless it is empty. A carriage return before the line feed stays
/// in the line, where it counts as whitespace.
pub open spec fn lines(s: Seq<char>) -> Seq<Seq<char>>
    decreases s.len(),
{
    if s.len() == 0 {
        Seq::empty()
    } else {
        let n = run_len(s, CharClass::Inline) as int;
        proof {
            lemma_run_len_bounds(s, CharClass::Inline);
        }
        if n == s.len() {
            seq![s]
        } else {
            seq![s.take(n)] + lines(s.skip(n + 1))
        }
    }
}

/// `s` without the whitespace at its start and at its end.
pub open spec fn trimmed(s: Seq<char>) -> Seq<char> {
    let t = s.skip(run_len(s, CharClass::Blank) as int);
    t.take(t.len() - run_len(t.reverse(), CharClass::Blank))
}

/// The decimal digit of `d`, for `d` below ten.
pub open spec fn digit(d: int) -> char {
    seq!['0', '1', '2', '3', '4', '5', '6', '7', '8', '9'][d]
}

/// The decimal digits of `n`, most significant first, without leading
/// zeros; zero is written `0`.
pub open spec fn digits(n: nat) -> Seq<char>
    decreases n,
{
    if n < 10 {
        seq![digit(n as int)]
    } else {
        digits(n / 10).push(digit((n % 10) as int))
    }
}

/// `n` in decimal, with a minus sign in front if it is negative.
pub open spec fn decimal(n: int) -> Seq<char> {
    if n < 0 {
        seq!['-'] + digits((-n) as nat)
    } else {
        digits(n as nat)
    }
}

/// `count` spaces.
pub open spec fn spaces(count: nat) -> Seq<char> {
    Seq::new(count, |i: int| ' ')
}

/// `s` followed by as many spaces as it lacks to be `width` characters
/// long; `s` itself if it is that long already.
pub open spec fn padded(s: Seq<char>, width: nat) -> Seq<char> {
    if s.len() >= width {
        s
    } else {
        s + spaces((width - s.len()) as nat)
    }
}

/// A word is a non-empty text without whitespace.
pub open spec fn is_word(w: Seq<char>) -> bool {
    w.len() > 0 && forall|i: int| 0 <= i < w.len() ==> !is_space(#[trigger] w[i])
}

/// Whether `s[from..to]` is a maximal run of non-whitespace: a word with
/// whitespace or the end of the text on either side.
pub open spec fn is_run_at(s: Seq<char>, from: int, to: int) -> bool {
    &&& 0 <= from < to <= s.len()
    &&& forall|i: int| from <= i < to ==> !is_space(#[trigger] s[i])
    &&& from == 0 || is_space(s[from - 1])
    &&& to == s.len() || is_space(s[to])
}

/// The view of an optional text.
pub open spec fn text_of(t: Option<&str>) -> Option<Seq<char>> {
    match t {
        Some(s) => Some(s@),
        None => None,
    }
}

/// The view of an optional string.
pub open spec fn string_of(t: Option<String>) -> Option<Seq<char>> {
    match t {
        Some(s) => Some(s@),
        None => None,
    }
}

/// The view of each string of `v`.
pub open spec fn texts(v: Seq<String>) -> Seq<Seq<char>> {
    v.map_values(|s: String| s@)
}

/// Decides [`is_space`].
pub fn is_whitespace(c: char) -> (r: bool)
    ensures
        r == is_space(c),
{
    let n: u32 = c as u32;
    (0x09 <= n && n <= 0x0D) || n == 0x20 || n == 0x85 || n == 0xA0 || n == 0x1680 || (0x2000 <= n
        && n <= 0x200A) || n == 0x2028 || n == 0x2029 || n == 0x202F || n == 0x205F || n == 0x3000
}

/// `String::push` of the standard library appends the character to the end
/// of the string and leaves the rest as it was.
pub assume_specification[ String::push ](s: &mut String, c: char)
    ensures
        final(s)@ == old(s)@.push(c),
;

/// The characters of `s`, in order.
pub fn chars_of(s: &str) -> (v: Vec<char>)
    ensures
        v@ == s@,
{
    let mut v: Vec<char> = Vec::new();
    for c in it: s.chars()
        invariant
            v@ == it.seq().take(it.index()),
            it.seq() == s@,
    {
        v.push(c);
    }
    v
}

/// The text `chars[from..to]`.
pub(crate) fn text_between(chars: &Vec<char>, from: usize, to: usize) -> (r: String)
    requires
        from <= to <= chars.len(),
    ensures
        r@ == chars@.subrange(from as int, to as int),
{
    let mut r = String::new();
    let mut i: usize = from;
    while i < to
        invariant
            from <= i <= to <= chars.len(),
            r@ == chars@.subrange(from as int, i as int),
        decreases to - i,
    {
        r.push(chars[i]);
        i += 1;
    }
    r
}

/// Where the run of `class` that starts at `from` ends, within
/// `chars[from..to]`.
pub(crate) fn run_end(chars: &Vec<char>, from: usize, to: usize, class: CharClass) -> (end: usize)
    requires
        from <= to <= chars.len(),
    ensures
        from <= end <= to,
        end - from == run_len(chars@.subrange(from as int, to as int), class),
{
    let mut i: usize = from;
    while i < to && class.contains(chars[i])
        invariant
            from <= i <= to <= chars.len(),
            forall|k: int| from <= k < i ==> class.has(#[trigger] chars@[k]),
        decreases to - i,
    {
        i += 1;
    }
    proof {
        lemma_run_len_is(chars@.subrange(from as int, to as int), class, i - from);
    }
    i
}

/// The fields of `chars[from..to]`.
pub(crate) fn fields_between(chars: &Vec<char>, from: usize, to: usize) -> (out: Vec<String>)
    requires
        from <= to <= chars.len(),
    ensures
        texts(out@) == fields(chars@.subrange(from as int, to as int)),
{
    let ghost line = chars@.subrange(from as int, to as int);
    let mut out: Vec<String> = Vec::new();
    let mut i: usize = from;
    assert(line.skip(0) =~= line);
    while i < to
        invariant
            from <= i <= to <= chars.len(),
            line == chars@.subrange(from as int, to as int),
            fields(line) == texts(out@) + fields(line.skip(i - from)),
        decreases to - i,
    {
        let ghost rest = line.skip(i - from);
        if is_whitespace(chars[i]) {
            assert(rest.drop_first() =~= line.skip(i + 1 - from));
            i += 1;
        } else {
            let end = run_end(chars, i, to, CharClass::Ink);
            let word = text_between(chars, i, end);
            proof {
                assert(rest =~= chars@.subrange(i as int, to as int));
                assert(rest.take(end - i) =~= word@);
                assert(rest.skip(end - i) =~= line.skip(end - from));
            }
            out.push(word);
            i = end;
        }
    }
    out
}

/// The whitespace-separated fields of `line`.
pub fn split_fields(line: &str) -> (out: Vec<String>)
    ensures
        texts(out@) == fields(line@),
{
    let chars = chars_of(line);
    assert(chars@.subrange(0, chars.len() as int) =~= chars@);
    fields_between(&chars, 0, chars.len())
}

/// `s` without the whitespace at its start and at its end.
pub fn trim(s: &str) -> (r: String)
    ensures
        r@ == trimmed(s@),
{
    let chars = chars_of(s);
    let n = chars.len();
    let start = run_end(&chars, 0, n, CharClass::Blank);
    let ghost t = chars@.skip(start as int);
    assert(chars@.subrange(0, n as int) =~= chars@);
    let mut end: usize = n;
    while end > start && is_whitespace(chars[end - 1])
        invariant
            start <= end <= n == chars.len(),
            forall|k: int| end <= k < n ==> is_space(#[trigger] chars@[k]),
        decreases end,
    {
        end -= 1;
    }
    proof {
        lemma_run_len_bounds(chars@, CharClass::Blank);
        let back = t.reverse();
        assert forall|i: int| 0 <= i < n - end implies CharClass::Blank.has(#[trigger] back[i]) by {
            assert(back[i] == chars@[n - 1 - i]);
        }
        if n - end < back.len() {
            assert(back[n - end] == chars@[end - 1]);
        }
        lemma_run_len_is(back, CharClass::Blank, n - end);
        assert(t.take(t.len() - (n - end)) =~= chars@.subrange(start as int, end as int));
    }
    text_between(&chars, start, end)
}

/// Decides [`digit`].
pub(crate) fn digit_char(d: u64) -> (c: char)
    requires
        d < 10,
    ensures
        c == digit(d as int),
{
    match d {
        0 => '0',
        1 => '1',
        2 => '2',
        3 => '3',
        4 => '4',
        5 => '5',
        6 => '6',
        7 => '7',
        8 => '8',
        _ => '9',
    }
}

/// Appends the decimal digits of `n` to `out`.
pub(crate) fn push_digits(out: &mut String, n: u64)
    ensures
        final(out)@ == old(out)@ + digits(n as nat),
    decreases n,
{
    if n >= 10 {
        push_digits(out, n / 10);
    }
    out.push(digit_char(n % 10));
}

/// Appends `n` in decimal to `out`.
pub fn push_decimal(out: &mut String, n: i32)
    ensures
        final(out)@ == old(out)@ + decimal(n as int),
{
    if n < 0 {
        out.push('-');
        push_digits(out, (-(n as i64)) as u64);
    } else {
        push_digits(out, n as u64);
    }
}

/// `n` in decimal.
pub fn decimal_string(n: i32) -> (r: String)
    ensures
        r@ == decimal(n as int),
{
    let mut r = String::new();
    push_decimal(&mut r, n);
    r
}

/// Appends `s` to `out`, and after it the spaces that `s` lacks to be
/// `width` characters long.
pub fn push_padded(out: &mut String, s: &str, width: usize)
    ensures
        final(out)@ == old(out)@ + padded(s@, width as nat),
{
    let len = s.unicode_len();
    out.append(s);
    let mut i: usize = len;
    while i < width
        invariant
            len == s@.len(),
            len <= i <= width || (width < len && i == len),
            out@ == old(out)@ + s@ + spaces((i - len) as nat),
        decreases width - i,
    {
        out.push(' ');
        i += 1;
    }
}

/// A run ends inside the sequence, every character before its end belongs
/// to the class, and the character at its end, if there is one, does not.
pub proof fn lemma_run_len_bounds(s: Seq<char>, class: CharClass)
    ensures
        run_len(s, class) <= s.len(),
        forall|i: int| 0 <= i < run_len(s, class) ==> class.has(#[trigger] s[i]),
        run_len(s, class) < s.len() ==> !class.has(s[run_len(s, class) as int]),
        s.len() > 0 && class.has(s[0]) ==> run_len(s, class) >= 1,
    decreases s.len(),
{
    if s.len() > 0 && class.has(s[0]) {
        let t = s.drop_first();
        lemma_run_len_bounds(t, class);
        assert forall|i: int| 0 <= i < run_len(s, class) implies class.has(#[trigger] s[i]) by {
            if i > 0 {
                assert(s[i] == t[i - 1]);
            }
        }
        if run_len(s, class) < s.len() {
            assert(s[run_len(s, class) as int] == t[run_len(t, class) as int]);
        }
    }
}

/// A prefix whose characters all belong to the class, and that ends at the
/// end of the sequence or before a character outside the class, is the run.
pub proof fn lemma_run_len_is(s: Seq<char>, class: CharClass, n: int)
    requires
        0 <= n <= s.len(),
        forall|i: int| 0 <= i < n ==> class.has(#[trigger] s[i]),
        n < s.len() ==> !class.has(s[n]),
    ensures
        run_len(s, class) == n,
    decreases s.len(),
{
    if n > 0 {
        let t = s.drop_first();
        assert forall|i: int| 0 <= i < n - 1 implies class.has(#[trigger] t[i]) by {
            assert(t[i] == s[i + 1]);
        }
        lemma_run_len_is(t, class, n - 1);
    }
}

/// Every field is a word.
pub proof fn lemma_fields_are_words(s: Seq<char>)
    ensures
        forall|k: int| 0 <= k < fields(s).len() ==> is_word(#[trigger] fields(s)[k]),
    decreases s.len(),
{
    if s.len() == 0 {
    } else if is_space(s[0]) {
        lemma_fields_are_words(s.drop_first());
        assert(fields(s) == fields(s.drop_first()));
    } else {
        let n = run_len(s, CharClass::Ink) as int;
        lemma_run_len_bounds(s, CharClass::Ink);
        lemma_fields_are_words(s.skip(n));
        assert(fields(s) == seq![s.take(n)] + fields(s.skip(n)));
        let head = s.take(n);
        let tail = fields(s.skip(n));
        assert(is_word(head)) by {
            assert forall|i: int| 0 <= i < head.len() implies !is_space(#[trigger] head[i]) by {
                assert(CharClass::Ink.has(s[i]));
            }
        }
        assert forall|k: int| 0 <= k < fields(s).len() implies is_word(#[trigger] fields(s)[k]) by {
            if k > 0 {
                assert(fields(s)[k] == tail[k - 1]);
            }
        }
    }
}

/// Every field stands in the text as it is: it is one of the maximal runs
/// of non-whitespace of the text.
pub proof fn lemma_fields_are_maximal_runs(s: Seq<char>, k: int)
    requires
        0 <= k < fields(s).len(),
    ensures
        exists|from: int, to: int|
            #[trigger] is_run_at(s, from, to) && fields(s)[k] == s.subrange(from, to),
    decreases s.len(),
{
    if is_space(s[0]) {
        let t = s.drop_first();
        assert(fields(s) == fields(t));
        lemma_fields_are_maximal_runs(t, k);
        let (from, to) = choose|from: int, to: int|
            #[trigger] is_run_at(t, from, to) && fields(t)[k] == t.subrange(from, to);
        assert forall|i: int| from + 1 <= i < to + 1 implies !is_space(#[trigger] s[i]) by {
            assert(s[i] == t[i - 1]);
        }
        assert(is_run_at(s, from + 1, to + 1));
        assert(s.subrange(from + 1, to + 1) =~= t.subrange(from, to));
    } else {
        let n = run_len(s, CharClass::Ink) as int;
        lemma_run_len_bounds(s, CharClass::Ink);
        assert(fields(s) == seq![s.take(n)] + fields(s.skip(n)));
        if k == 0 {
            assert forall|i: int| 0 <= i < n implies !is_space(#[trigger] s[i]) by {
                assert(CharClass::Ink.has(s[i]));
            }
            assert(is_run_at(s, 0, n));
            assert(s.take(n) =~= s.subrange(0, n));
        } else {
            let t = s.skip(n);
            assert(fields(s)[k] == fields(t)[k - 1]);
            lemma_fields_are_maximal_runs(t, k - 1);
            let (from, to) = choose|from: int, to: int|
                #[trigger] is_run_at(t, from, to) && fields(t)[k - 1] == t.subrange(from, to);
            assert(t[from] == s[from + n]);
            assert(t[0] == s[n]);
            assert(from > 0);
            assert forall|i: int| from + n <= i < to + n implies !is_space(#[trigger] s[i]) by {
                assert(s[i] == t[i - n]);
            }
            assert(t[from - 1] == s[from + n - 1]);
            assert(is_run_at(s, from + n, to + n));
            assert(s.subrange(from + n, to + n) =~= t.subrange(from, to));
        }
    }
}

/// No field is lost: every maximal run of non-whitespace of the text is
/// one of its fields.
pub proof fn lemma_maximal_runs_are_fields(s: Seq<char>, from: int, to: int)
    requires
        is_run_at(s, from, to),
    ensures
        fields(s).contains(s.subrange(from, to)),
    decreases s.len(),
{
    let run = s.subrange(from, to);
    if is_space(s[0]) {
        let t = s.drop_first();
        assert(fields(s) == fields(t));
        assert forall|i: int| from - 1 <= i < to - 1 implies !is_space(#[trigger] t[i]) by {
            assert(t[i] == s[i + 1]);
        }
        assert(is_run_at(t, from - 1, to - 1));
        lemma_maximal_runs_are_fields(t, from - 1, to - 1);
        assert(t.subrange(from - 1, to - 1) =~= run);
    } else {
        let n = run_len(s, CharClass::Ink) as int;
        lemma_run_len_bounds(s, CharClass::Ink);
        assert(fields(s) == seq![s.take(n)] + fields(s.skip(n)));
        if from == 0 {
            lemma_run_len_is(s, CharClass::Ink, to);
            assert(s.take(n) =~= run);
            assert(fields(s)[0] == run);
        } else {
            let t = s.skip(n);
            assert(from > n) by {
                if from <= n {
                    assert(CharClass::Ink.has(s[from - 1]));
                }
            }
            assert forall|i: int| from - n <= i < to - n implies !is_space(#[trigger] t[i]) by {
                assert(t[i] == s[i + n]);
            }
            assert(t[from - n - 1] == s[from - 1]);
            assert(is_run_at(t, from - n, to - n));
            lemma_maximal_runs_are_fields(t, from - n, to - n);
            assert(t.subrange(from - n, to - n) =~= run);
            let j = choose|j: int| 0 <= j < fields(t).len() && fields(t)[j] == run;
            assert(fields(s)[j + 1] == run);
        }
    }
}

/// Text made of whitespace only has no field.
pub proof fn lemma_blank_has_no_field(s: Seq<char>)
    requires
        forall|i: int| 0 <= i < s.len() ==> is_space(#[trigger] s[i]),
    ensures
        fields(s).len() == 0,
    decreases s.len(),
{
    if s.len() > 0 {
        let t = s.drop_first();
        assert forall|i: int| 0 <= i < t.len() implies is_space(#[trigger] t[i]) by {
            assert(t[i] == s[i + 1]);
        }
        lemma_blank_has_no_field(t);
    }
}

/// Trimmed text is a stretch of the text with nothing but whitespace
/// before and after it, and it neither starts nor ends with whitespace.
pub proof fn lemma_trimmed_is_tight(s: Seq<char>)
    ensures
        trimmed(s).len() > 0 ==> !is_space(trimmed(s).first()) && !is_space(trimmed(s).last()),
        exists|a: int, b: int|
            {
                &&& 0 <= a <= b <= s.len()
                &&& trimmed(s) == #[trigger] s.subrange(a, b)
                &&& forall|i: int| 0 <= i < a ==> is_space(#[trigger] s[i])
                &&& forall|i: int| b <= i < s.len() ==> is_space(#[trigger] s[i])
            },
{
    let a = run_len(s, CharClass::Blank) as int;
    lemma_run_len_bounds(s, CharClass::Blank);
    let t = s.skip(a);
    let back = t.reverse();
    let r = run_len(back, CharClass::Blank) as int;
    lemma_run_len_bounds(back, CharClass::Blank);
    let b = s.len() - r;
    if t.len() > 0 {
        assert(back[t.len() - 1] == t[0]);
        assert(t[0] == s[a]);
        assert(r < t.len());
        assert(back[r] == t[t.len() - 1 - r]);
    }
    assert(trimmed(s) =~= s.subrange(a, b));
    assert forall|i: int| 0 <= i < a implies is_space(#[trigger] s[i]) by {
        assert(CharClass::Blank.has(s[i]));
    }
    assert forall|i: int| b <= i < s.len() implies is_space(#[trigger] s[i]) by {
        assert(back[s.len() - 1 - i] == s[i]);
        assert(CharClass::Blank.has(back[s.len() - 1 - i]));
    }
}

/// Trimming twice is trimming once.
pub proof fn lemma_trimmed_again(s: Seq<char>)
    ensures
        trimmed(trimmed(s)) == trimmed(s),
{
    let t = trimmed(s);
    lemma_trimmed_is_tight(s);
    lemma_run_len_is(t, CharClass::Blank, 0);
    assert(t.skip(0) =~= t);
    if t.len() > 0 {
        assert(t.reverse()[0] == t.last());
    }
    lemma_run_len_is(t.reverse(), CharClass::Blank, 0);
    assert(t.take(t.len() as int) =~= t);
}

/// Padding keeps the text, adds only spaces, and fills up to the width.
pub proof fn lemma_padded(s: Seq<char>, width: nat)
    ensures
        padded(s, width).len() == if s.len() >= width {
            s.len()
        } else {
            width
        },
        padded(s, width).take(s.len() as int) == s,
        forall|i: int| s.len() <= i < padded(s, width).len() ==> padded(s, width)[i] == ' ',
{
    assert(padded(s, width).take(s.len() as int) =~= s);
}

/// A number is written with decimal digits only, and without a leading
/// zero unless it is zero.
pub proof fn lemma_digits(n: nat)
    ensures
        digits(n).len() >= 1,
        forall|i: int| 0 <= i < digits(n).len() ==> '0' <= #[trigger] digits(n)[i] <= '9',
        digits(n)[0] == '0' <==> n == 0,
    decreases n,
{
    if n >= 10 {
        lemma_digits(n / 10);
    }
}

} // verus!
