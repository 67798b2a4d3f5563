use vstd::prelude::*;

verus! {

/// `n` copies of the space character.
pub open spec fn spaces(n: nat) -> Seq<char> {
    Seq::new(n, |i: int| ' ')
}

/// The decimal digit character for `d`, which is below ten.
pub open spec fn digit_char(d: nat) -> char {
    ((d + 48) as u32) as char
}

/// The decimal representation of `n`, without leading zeros.
pub open spec fn decimal(n: nat) -> Seq<char>
    decreases n,
{
    if n < 10 {
        seq![digit_char(n)]
    } else {
        decimal(n / 10).push(digit_char(n % 10))
    }
}

/// `text` preceded by as many zeros as it takes to reach `width` characters.
pub open spec fn zero_padded(text: Seq<char>, width: nat) -> Seq<char> {
    if text.len() >= width {
        text
    } else {
        Seq::new((width - text.len()) as nat, |i: int| '0') + text
    }
}

/// A signed number as `format!("{:0w$}")` writes it: the sign first, then
/// the digits padded with zeros so that sign and digits fill `width`.
pub open spec fn signed_zero_padded(n: int, width: nat) -> Seq<char> {
    if n < 0 {
        seq!['-'] + zero_padded(decimal((-n) as nat), if width > 0 { (width - 1) as nat } else { 0 })
    } else {
        zero_padded(decimal(n as nat), width)
    }
}

/// Appends one character to a string (`String::push`).
#[verifier::external_body]
pub(crate) fn push_char(s: &mut String, c: char)
    ensures
        final(s)@ == old(s)@.push(c),
{
    s.push(c);
}

/// Appends a string slice to a string (`String::push_str`).
#[verifier::external_body]
pub(crate) fn push_str(s: &mut String, t: &str)
    ensures
        final(s)@ == old(s)@ + t@,
{
    s.push_str(t);
}

/// A new string holding the characters of `t` (`str::to_string`).
pub fn owned(t: &str) -> (result: String)
    ensures
        result@ == t@,
{
    let mut s = String::new();
    push_str(&mut s, t);
    proof {
        assert(s@ =~= t@);
    }
    s
}

fn digit(d: u64) -> (c: char)
    requires
        d < 10,
    ensures
        c == digit_char(d as nat),
{
    let b: u8 = 48u8 + (d as u8);
    b as char
}

/// Appends the decimal representation of `n`.
pub fn push_decimal(s: &mut String, n: u64)
    ensures
        final(s)@ == old(s)@ + decimal(n as nat),
    decreases n,
{
    if n >= 10 {
        push_decimal(s, n / 10);
    }
    push_char(s, digit(n % 10));
    proof {
        if n >= 10 {
            assert(final(s)@ =~= old(s)@ + decimal(n as nat));
        } else {
            assert(final(s)@ =~= old(s)@ + decimal(n as nat));
        }
    }
}

/// The decimal representation of `n` as a new string.
pub fn decimal_string(n: u64) -> (result: String)
    ensures
        result@ == decimal(n as nat),
{
    let mut s = String::new();
    push_decimal(&mut s, n);
    assert(s@ =~= decimal(n as nat));
    s
}

/// Appends `n` zero-padded to `width` characters.
pub fn push_zero_padded(s: &mut String, n: u64, width: usize)
    ensures
        final(s)@ == old(s)@ + zero_padded(decimal(n as nat), width as nat),
{
    let digits = decimal_string(n);
    let len = digits.as_str().unicode_len();
    let ghost start = s@;
    if len < width {
        let mut k: usize = 0;
        while k < width - len
            invariant
                len < width,
                k <= width - len,
                s@ == start + Seq::new(k as nat, |i: int| '0'),
            decreases width - len - k,
        {
            push_char(s, '0');
            k += 1;
            assert(s@ =~= start + Seq::new(k as nat, |i: int| '0'));
        }
    }
    push_str(s, digits.as_str());
    assert(s@ =~= start + zero_padded(decimal(n as nat), width as nat));
}

/// Appends `n` as `format!("{:0width$}", n)` would write it.
pub fn push_signed_zero_padded(s: &mut String, n: i64, width: usize)
    ensures
        final(s)@ == old(s)@ + signed_zero_padded(n as int, width as nat),
{
    let ghost start = s@;
    if n < 0 {
        push_char(s, '-');
        let magnitude: u64 = if n == i64::MIN { 9223372036854775808u64 } else { (-n) as u64 };
        push_zero_padded(s, magnitude, if width > 0 { width - 1 } else { 0 });
    } else {
        push_zero_padded(s, n as u64, width);
    }
    assert(s@ =~= start + signed_zero_padded(n as int, width as nat));
}


/// The characters Unicode marks `White_Space` (those `char::is_whitespace` accepts).
pub open spec fn is_unicode_whitespace(c: char) -> bool {
    ||| ('\u{9}' <= c && c <= '\u{d}')
    ||| c == ' '
    ||| c == '\u{85}'
    ||| c == '\u{a0}'
    ||| c == '\u{1680}'
    ||| ('\u{2000}' <= c && c <= '\u{200a}')
    ||| c == '\u{2028}'
    ||| c == '\u{2029}'
    ||| c == '\u{202f}'
    ||| c == '\u{205f}'
    ||| c == '\u{3000}'
}

/// Whether `c` is white space.
pub fn is_whitespace(c: char) -> (ws: bool)
    ensures
        ws == is_unicode_whitespace(c),
{
    ('\u{9}' <= c && c <= '\u{d}') || c == ' ' || c == '\u{85}' || c == '\u{a0}' || c == '\u{1680}'
        || ('\u{2000}' <= c && c <= '\u{200a}') || c == '\u{2028}' || c == '\u{2029}' || c == '\u{202f}'
        || c == '\u{205f}' || c == '\u{3000}'
}

/// The length `s` keeps once trailing white space is trimmed.
pub open spec fn kept_len(s: Seq<char>) -> nat
    decreases s.len(),
{
    if s.len() == 0 {
        0
    } else if is_unicode_whitespace(s.last()) {
        kept_len(s.drop_last())
    } else {
        s.len()
    }
}

/// `s` without its trailing white space (`str::trim_end`).
pub open spec fn trim_end_spec(s: Seq<char>) -> Seq<char> {
    s.take(kept_len(s) as int)
}

/// The pieces of `s` between occurrences of `sep` (`str::split` on a
/// character): always at least one, empty pieces included.
pub open spec fn split_on(s: Seq<char>, sep: char) -> Seq<Seq<char>>
    decreases s.len(),
{
    if s.len() == 0 {
        seq![Seq::<char>::empty()]
    } else {
        let prev = split_on(s.drop_last(), sep);
        if s.last() == sep {
            prev.push(Seq::<char>::empty())
        } else {
            prev.update(prev.len() - 1, prev.last().push(s.last()))
        }
    }
}

pub proof fn lemma_kept_len_bound(s: Seq<char>)
    ensures
        kept_len(s) <= s.len(),
    decreases s.len(),
{
    if s.len() > 0 {
        lemma_kept_len_bound(s.drop_last());
    }
}

pub proof fn lemma_split_nonempty(s: Seq<char>, sep: char)
    ensures
        split_on(s, sep).len() >= 1,
    decreases s.len(),
{
    if s.len() > 0 {
        lemma_split_nonempty(s.drop_last(), sep);
    }
}

/// The lines of `text` once trailing white space is trimmed, split at each
/// line feed.
pub fn trimmed_lines(text: &str) -> (lines: Vec<String>)
    ensures
        lines@.map_values(|l: String| l@) == split_on(trim_end_spec(text@), '\n'),
{
    let ghost t = text@;
    let total = text.unicode_len();
    let mut kept: usize = 0;
    let mut count: usize = 0;
    for ch in it: text.chars()
        invariant
            it.seq() == t,
            t.len() == total,
            t == text@,
            count == it.index(),
            kept == kept_len(t.take(it.index() as int)),
    {
        proof {
            assert(t.take(it.index() + 1).drop_last() =~= t.take(it.index() as int));
        }
        count += 1;
        if !is_whitespace(ch) {
            kept = count;
        }
    }
    proof {
        assert(t.take(t.len() as int) =~= t);
        lemma_kept_len_bound(t);
    }
    let ghost trimmed = trim_end_spec(t);
    let mut lines: Vec<String> = Vec::new();
    let mut current = String::new();
    let mut index: usize = 0;
    for ch in it: text.chars()
        invariant
            it.seq() == t,
            t == text@,
            t.len() == total,
            kept == kept_len(t),
            kept <= t.len(),
            trimmed == t.take(kept as int),
            index == it.index(),
            lines@.map_values(|l: String| l@).push(current@) == split_on(
                trimmed.take(if index <= kept { index as int } else { kept as int }),
                '\n',
            ),
    {
        let ghost before = lines@.map_values(|l: String| l@);
        let ghost prefix = trimmed.take(index as int);
        if index < kept {
            proof {
                assert(trimmed.take(index + 1).drop_last() =~= prefix);
                assert(trimmed.take(index + 1).last() == ch);
                lemma_split_nonempty(prefix, '\n');
            }
            if ch == '\n' {
                let finished = current;
                lines.push(finished);
                current = String::new();
                proof {
                    assert(lines@.map_values(|l: String| l@).push(current@) =~= split_on(
                        trimmed.take(index + 1),
                        '\n',
                    ));
                }
            } else {
                push_char(&mut current, ch);
                proof {
                    assert(lines@.map_values(|l: String| l@).push(current@) =~= split_on(
                        trimmed.take(index + 1),
                        '\n',
                    ));
                }
            }
        }
        index += 1;
    }
    lines.push(current);
    proof {
        assert(trimmed.take(kept as int) =~= trimmed);
    }
    lines
}


/// A line that ended with a line feed, without a carriage return before it.
pub open spec fn strip_cr(line: Seq<char>) -> Seq<char> {
    if line.len() > 0 && line.last() == '\r' {
        line.drop_last()
    } else {
        line
    }
}

/// The lines of `s` as `str::lines` gives them: split at line feeds, a
/// carriage return before a line feed dropped, and no empty last line after
/// a final line feed.
pub open spec fn lines_spec(s: Seq<char>) -> Seq<Seq<char>> {
    let pieces = split_on(s, '\n');
    let ended = pieces.drop_last().map_values(|p: Seq<char>| strip_cr(p));
    if pieces.last().len() > 0 {
        ended.push(pieces.last())
    } else {
        ended
    }
}

/// The lines of `text` (`str::lines`), each as a new string.
pub fn text_lines(text: &str) -> (lines: Vec<String>)
    ensures
        lines@.map_values(|l: String| l@) == lines_spec(text@),
{
    let ghost t = text@;
    let mut lines: Vec<String> = Vec::new();
    let mut current = String::new();
    for ch in it: text.chars()
        invariant
            it.seq() == t,
            t == text@,
            lines@.map_values(|l: String| l@) == split_on(t.take(it.index() as int), '\n').drop_last().map_values(
                |p: Seq<char>| strip_cr(p),
            ),
            current@ == split_on(t.take(it.index() as int), '\n').last(),
    {
        let ghost prefix = t.take(it.index() as int);
        proof {
            assert(t.take(it.index() + 1).drop_last() =~= prefix);
            lemma_split_nonempty(prefix, '\n');
        }
        if ch == '\n' {
            let ghost pieces = split_on(prefix, '\n');
            let ghost before = lines@.map_values(|l: String| l@);
            let mut finished = current;
            let len = finished.as_str().unicode_len();
            if len > 0 && finished.as_str().get_char(len - 1) == '\r' {
                finished = drop_last_char(finished.as_str());
            }
            assert(finished@ == strip_cr(pieces.last()));
            lines.push(finished);
            current = String::new();
            proof {
                assert(split_on(t.take(it.index() + 1), '\n') == pieces.push(Seq::<char>::empty()));
                assert(pieces.push(Seq::<char>::empty()).drop_last() =~= pieces);
                assert(pieces.map_values(|p: Seq<char>| strip_cr(p)) =~= pieces.drop_last().map_values(
                    |p: Seq<char>| strip_cr(p),
                ).push(strip_cr(pieces.last())));
                assert(lines@.map_values(|l: String| l@) =~= before.push(finished@));
            }
        } else {
            push_char(&mut current, ch);
            proof {
                let pieces = split_on(prefix, '\n');
                assert(split_on(t.take(it.index() + 1), '\n').drop_last() =~= pieces.drop_last());
            }
        }
    }
    proof {
        assert(t.take(t.len() as int) =~= t);
        lemma_split_nonempty(t, '\n');
    }
    if current.as_str().unicode_len() > 0 {
        lines.push(current);
    }
    proof {
        assert(lines@.map_values(|l: String| l@) =~= lines_spec(t));
    }
    lines
}

/// `text` without its last character.
pub fn drop_last_char(text: &str) -> (shorter: String)
    requires
        text@.len() > 0,
    ensures
        shorter@ == text@.drop_last(),
{
    let mut shorter = String::new();
    let n = text.unicode_len();
    let mut i: usize = 0;
    for ch in it: text.chars()
        invariant
            it.seq() == text@,
            n == text@.len(),
            i == it.index(),
            shorter@ == text@.take(if i < n { i as int } else { (n - 1) as int }),
    {
        if i + 1 < n {
            push_char(&mut shorter, ch);
            assert(shorter@ =~= text@.take(i + 1));
        }
        i += 1;
    }
    assert(text@.take((n - 1) as int) =~= text@.drop_last());
    shorter
}

/// Unicode control characters (general category Cc), those `char::is_control` accepts.
pub open spec fn is_control_char(c: char) -> bool {
    c <= '\u{1f}' || ('\u{7f}' <= c && c <= '\u{9f}')
}

/// Whether `c` is a control character.
pub fn is_control(c: char) -> (control: bool)
    ensures
        control == is_control_char(c),
{
    c <= '\u{1f}' || ('\u{7f}' <= c && c <= '\u{9f}')
}


/// `s` without its leading white space.
pub open spec fn trim_start_spec(s: Seq<char>) -> Seq<char>
    decreases s.len(),
{
    if s.len() > 0 && is_unicode_whitespace(s[0]) {
        trim_start_spec(s.drop_first())
    } else {
        s
    }
}

/// `s` without leading and trailing white space (`str::trim`).
pub open spec fn trim_spec(s: Seq<char>) -> Seq<char> {
    trim_start_spec(trim_end_spec(s))
}

proof fn lemma_trim_start_suffix(s: Seq<char>, i: int)
    requires
        0 <= i <= s.len(),
        forall|j: int| 0 <= j < i ==> is_unicode_whitespace(#[trigger] s[j]),
    ensures
        trim_start_spec(s) == trim_start_spec(s.subrange(i, s.len() as int)),
    decreases i,
{
    if i > 0 {
        assert(s.drop_first() =~= s.subrange(1, s.len() as int));
        lemma_trim_start_suffix(s.drop_first(), i - 1);
        assert(s.drop_first().subrange(i - 1, s.drop_first().len() as int) =~= s.subrange(i, s.len() as int));
    } else {
        assert(s.subrange(0, s.len() as int) =~= s);
    }
}

/// `text` without leading and trailing white space, as a new string.
pub fn trimmed(text: &str) -> (result: String)
    ensures
        result@ == trim_spec(text@),
{
    let chars = chars_vec(text);
    let n = chars.len();
    let mut end: usize = n;
    assert(text@.take(n as int) =~= text@);
    while end > 0 && is_whitespace(chars[end - 1])
        invariant
            chars@ == text@,
            n == chars@.len(),
            end <= n,
            kept_len(text@) == kept_len(text@.take(end as int)),
        decreases end,
    {
        proof {
            assert(text@.take(end as int).drop_last() =~= text@.take(end - 1));
        }
        end -= 1;
    }
    proof {
        if end > 0 {
            assert(text@.take(end as int).last() == chars@[end - 1]);
        }
        assert(kept_len(text@) == end);
        assert(trim_end_spec(text@) =~= text@.take(end as int));
    }
    let ghost kept = text@.take(end as int);
    let mut start: usize = 0;
    while start < end && is_whitespace(chars[start])
        invariant
            chars@ == text@,
            end <= n,
            n == chars@.len(),
            start <= end,
            kept == text@.take(end as int),
            forall|j: int| 0 <= j < start ==> is_unicode_whitespace(#[trigger] kept[j]),
        decreases end - start,
    {
        start += 1;
    }
    proof {
        lemma_trim_start_suffix(kept, start as int);
        let rest = kept.subrange(start as int, kept.len() as int);
        if rest.len() > 0 {
            assert(rest[0] == chars@[start as int]);
        }
    }
    let mut result = String::new();
    let mut i: usize = start;
    while i < end
        invariant
            chars@ == text@,
            start <= i <= end,
            end <= n,
            n == chars@.len(),
            result@ == text@.subrange(start as int, i as int),
        decreases end - i,
    {
        push_char(&mut result, chars[i]);
        i += 1;
        assert(result@ =~= text@.subrange(start as int, i as int));
    }
    assert(result@ =~= text@.take(end as int).subrange(start as int, end as int));
    result
}

/// The characters of `text` in a vector.
pub fn chars_vec(text: &str) -> (chars: Vec<char>)
    ensures
        chars@ == text@,
{
    let mut chars: Vec<char> = Vec::new();
    for ch in it: text.chars()
        invariant
            it.seq() == text@,
            chars@ == text@.take(it.index() as int),
    {
        chars.push(ch);
        assert(chars@ =~= text@.take(it.index() + 1));
    }
    assert(text@.take(text@.len() as int) =~= text@);
    chars
}


/// The two texts hold the same characters.
pub fn same_text(a: &str, b: &str) -> (same: bool)
    ensures
        same == (a@ == b@),
{
    let x = chars_vec(a);
    let y = chars_vec(b);
    if x.len() != y.len() {
        return false;
    }
    let mut i: usize = 0;
    while i < x.len()
        invariant
            x@ == a@,
            y@ == b@,
            x@.len() == y@.len(),
            i <= x@.len(),
            forall|k: int| 0 <= k < i ==> x@[k] == y@[k],
        decreases x.len() - i,
    {
        if x[i] != y[i] {
            return false;
        }
        i += 1;
    }
    assert(x@ =~= y@);
    true
}

/// The pieces of `text` between occurrences of `sep`, as new strings.
pub fn split_text(text: &str, sep: char) -> (pieces: Vec<String>)
    ensures
        pieces@.map_values(|p: String| p@) == split_on(text@, sep),
{
    let ghost t = text@;
    let mut pieces: Vec<String> = Vec::new();
    let mut current = String::new();
    for ch in it: text.chars()
        invariant
            it.seq() == t,
            t == text@,
            pieces@.map_values(|p: String| p@).push(current@) == split_on(t.take(it.index() as int), sep),
    {
        let ghost prefix = t.take(it.index() as int);
        let ghost before = pieces@.map_values(|p: String| p@);
        proof {
            assert(t.take(it.index() + 1).drop_last() =~= prefix);
            lemma_split_nonempty(prefix, sep);
        }
        if ch == sep {
            let finished = current;
            pieces.push(finished);
            current = String::new();
            proof {
                assert(pieces@.map_values(|p: String| p@).push(current@) =~= split_on(t.take(it.index() + 1), sep));
            }
        } else {
            push_char(&mut current, ch);
            proof {
                assert(pieces@.map_values(|p: String| p@).push(current@) =~= split_on(t.take(it.index() + 1), sep));
            }
        }
    }
    assert(t.take(t.len() as int) =~= t);
    pieces.push(current);
    pieces
}

} // verus!
