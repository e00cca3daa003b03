//! Text operations on strings, each pinned to a mathematical description.
use vstd::prelude::*;
use vstd::string::StrSliceExecFns;
use vstd::string::StringExecFns;
use vstd::utf8::{decode_utf8, valid_utf8};

verus! {

/// The decimal digit `d`.
pub open spec fn digit(d: nat) -> char
    recommends
        d < 10,
{
    (48 + d) as char
}

/// `n` in decimal notation, without leading zeros.
pub open spec fn decimal(n: nat) -> Seq<char>
    decreases n,
{
    if n < 10 {
        seq![digit(n)]
    } else {
        decimal(n / 10).push(digit(n % 10))
    }
}

fn digit_text(d: u64) -> (s: &'static str)
    requires
        d < 10,
    ensures
        s@ == seq![digit(d as nat)],
{
    proof {
        reveal_strlit("0");
        reveal_strlit("1");
        reveal_strlit("2");
        reveal_strlit("3");
        reveal_strlit("4");
        reveal_strlit("5");
        reveal_strlit("6");
        reveal_strlit("7");
        reveal_strlit("8");
        reveal_strlit("9");
    }
    match d {
        0 => "0",
        1 => "1",
        2 => "2",
        3 => "3",
        4 => "4",
        5 => "5",
        6 => "6",
        7 => "7",
        8 => "8",
        _ => "9",
    }
}

/// Writes `n` in decimal notation.
pub fn decimal_text(n: u64) -> (s: String)
    ensures
        s@ == decimal(n as nat),
    decreases n,
{
    if n < 10 {
        String::from_str(digit_text(n))
    } else {
        let mut s = decimal_text(n / 10);
        s.append(digit_text(n % 10));
        s
    }
}

/// Joins two pieces of text.
pub fn join(a: &str, b: &str) -> (s: String)
    ensures
        s@ == a@ + b@,
{
    let mut s = String::from_str(a);
    s.append(b);
    s
}

/// A prefix followed by a number in decimal notation, such as `card1`.
pub fn numbered(prefix: &str, n: u64) -> (s: String)
    ensures
        s@ == prefix@ + decimal(n as nat),
{
    join(prefix, decimal_text(n).as_str())
}

/// `n` in decimal notation, after a minus sign where it is negative.
pub open spec fn signed_decimal(n: int) -> Seq<char> {
    if n < 0 {
        "-"@ + decimal((-n) as nat)
    } else {
        decimal(n as nat)
    }
}

/// Writes `n` in decimal notation.
pub fn signed_text(n: i32) -> (s: String)
    ensures
        s@ == signed_decimal(n as int),
{
    if n < 0 {
        numbered("-", (-(n as i64)) as u64)
    } else {
        decimal_text(n as u64)
    }
}

/// The characters of a string, in order.
pub fn chars_of(s: &str) -> (v: Vec<char>)
    ensures
        v@ == s@,
{
    let mut v: Vec<char> = Vec::new();
    for c in it: s.chars()
        invariant
            v@ == it.seq().take(it.index()),
            it.seq() == s@,
    {
        v.push(c);
    }
    v
}

/// Whether two strings hold the same characters.
pub fn same_text(a: &str, b: &str) -> (same: bool)
    ensures
        same == (a@ == b@),
{
    let x = chars_of(a);
    let y = chars_of(b);
    if x.len() != y.len() {
        return false;
    }
    let mut i: usize = 0;
    while i < x.len()
        invariant
            i <= x.len(),
            x.len() == y.len(),
            x@ == a@,
            y@ == b@,
            forall|j: int| 0 <= j < i ==> x@[j] == y@[j],
        decreases x.len() - i,
    {
        if x[i] != y[i] {
            return false;
        }
        i = i + 1;
    }
    assert(x@ =~= y@);
    true
}

/// `a` comes before `b` in the order of strings: at the first character in which they differ it has
/// the smaller one, or it ends there.
pub open spec fn text_before(a: Seq<char>, b: Seq<char>) -> bool
    decreases a.len(),
{
    if b.len() == 0 {
        false
    } else if a.len() == 0 {
        true
    } else if a[0] != b[0] {
        (a[0] as int) < (b[0] as int)
    } else {
        text_before(a.skip(1), b.skip(1))
    }
}

/// No string comes before itself.
pub proof fn lemma_text_not_before_itself(a: Seq<char>)
    ensures
        !text_before(a, a),
    decreases a.len(),
{
    if a.len() > 0 {
        lemma_text_not_before_itself(a.skip(1));
    }
}

/// The order of strings carries over.
pub proof fn lemma_text_before_chain(a: Seq<char>, b: Seq<char>, c: Seq<char>)
    requires
        text_before(a, b),
        text_before(b, c),
    ensures
        text_before(a, c),
    decreases a.len(),
{
    if a.len() > 0 && a[0] == b[0] && b[0] == c[0] {
        lemma_text_before_chain(a.skip(1), b.skip(1), c.skip(1));
    }
}

/// Of two different strings one comes before the other.
pub proof fn lemma_text_before_total(a: Seq<char>, b: Seq<char>)
    requires
        a != b,
    ensures
        text_before(a, b) || text_before(b, a),
    decreases a.len(),
{
    if a.len() == 0 {
        if b.len() == 0 {
            assert(a =~= b);
        }
    } else if b.len() > 0 && a[0] == b[0] {
        if a.skip(1) == b.skip(1) {
            assert(a =~= seq![a[0]] + a.skip(1));
            assert(b =~= seq![b[0]] + b.skip(1));
        }
        lemma_text_before_total(a.skip(1), b.skip(1));
    }
}

/// Whether a string comes before another.
pub fn comes_before(a: &str, b: &str) -> (before: bool)
    ensures
        before == text_before(a@, b@),
{
    let x = chars_of(a);
    let y = chars_of(b);
    let mut i: usize = 0;
    assert(a@.skip(0) =~= a@ && b@.skip(0) =~= b@);
    while i < x.len() && i < y.len()
        invariant
            i <= x@.len(),
            i <= y@.len(),
            x@ == a@,
            y@ == b@,
            text_before(a@, b@) == text_before(a@.skip(i as int), b@.skip(i as int)),
        decreases x.len() - i,
    {
        proof {
            assert(a@.skip(i as int).skip(1) =~= a@.skip(i + 1));
            assert(b@.skip(i as int).skip(1) =~= b@.skip(i + 1));
            assert(a@.skip(i as int)[0] == x@[i as int]);
            assert(b@.skip(i as int)[0] == y@[i as int]);
        }
        let c: char = x[i];
        let d: char = y[i];
        if c != d {
            return c < d;
        }
        i = i + 1;
    }
    i < y.len()
}

/// `needle` stands in `text` at position `i`.
pub open spec fn occurs_at(text: Seq<char>, needle: Seq<char>, i: int) -> bool {
    0 <= i && i + needle.len() <= text.len() && text.subrange(i, i + needle.len()) == needle
}

/// `needle` stands somewhere in `text`.
pub open spec fn has_text(text: Seq<char>, needle: Seq<char>) -> bool {
    exists|i: int| #[trigger] occurs_at(text, needle, i)
}

fn matches_at(text: &Vec<char>, needle: &Vec<char>, i: usize) -> (m: bool)
    requires
        i + needle@.len() <= text@.len(),
    ensures
        m == occurs_at(text@, needle@, i as int),
{
    let len: usize = text.len();
    let mut j: usize = 0;
    while j < needle.len()
        invariant
            j <= needle.len(),
            len == text@.len(),
            i + needle@.len() <= len,
            forall|k: int| 0 <= k < j ==> text@[i + k] == needle@[k],
        decreases needle.len() - j,
    {
        if text[i + j] != needle[j] {
            assert(text@.subrange(i as int, i + needle@.len())[j as int] == text@[i + j]);
            return false;
        }
        j = j + 1;
    }
    assert(text@.subrange(i as int, i + needle@.len()) =~= needle@);
    true
}

/// Whether `needle` occurs in `text`.
pub fn contains(text: &str, needle: &str) -> (found: bool)
    ensures
        found == has_text(text@, needle@),
{
    let t = chars_of(text);
    let n = chars_of(needle);
    if n.len() > t.len() {
        return false;
    }
    let mut i: usize = 0;
    while i <= t.len() - n.len()
        invariant
            i <= t.len() - n.len() + 1,
            n.len() <= t.len(),
            t@ == text@,
            n@ == needle@,
            forall|k: int| 0 <= k < i ==> !occurs_at(t@, n@, k),
        decreases t.len() - n.len() + 1 - i,
    {
        if matches_at(&t, &n, i) {
            return true;
        }
        if i == t.len() - n.len() {
            return false;
        }
        i = i + 1;
    }
    false
}

/// `text` with every occurrence of `from`, taken from left to right and without overlap,
/// replaced by `to`.
pub open spec fn replaced(text: Seq<char>, from: Seq<char>, to: Seq<char>) -> Seq<char>
    decreases text.len(),
{
    if from.len() == 0 || text.len() < from.len() {
        text
    } else if occurs_at(text, from, 0) {
        to + replaced(text.skip(from.len() as int), from, to)
    } else {
        seq![text[0]] + replaced(text.skip(1), from, to)
    }
}

/// Replaces every occurrence of `from` by `to`.
pub fn replace(text: &str, from: &str, to: &str) -> (s: String)
    requires
        from@.len() > 0,
    ensures
        s@ == replaced(text@, from@, to@),
{
    let t = chars_of(text);
    let f = chars_of(from);
    let mut out = String::new();
    let mut i: usize = 0;
    assert(t@.skip(0) =~= t@);
    while i < t.len() && f.len() <= t.len() - i
        invariant
            i <= t.len(),
            t@ == text@,
            f@ == from@,
            f@.len() > 0,
            out@ + replaced(t@.skip(i as int), f@, to@) == replaced(t@, f@, to@),
        decreases t.len() - i,
    {
        let ghost rest = t@.skip(i as int);
        let ghost before = out@;
        let m = matches_at(&t, &f, i);
        assert(rest.subrange(0, f@.len() as int) =~= t@.subrange(i as int, i + f@.len()));
        assert(m == occurs_at(rest, f@, 0));
        if m {
            assert(rest.skip(f@.len() as int) =~= t@.skip(i + f@.len()));
            out.append(to);
            assert(out@ + replaced(t@.skip(i + f@.len()), f@, to@) =~= before + replaced(
                rest,
                f@,
                to@,
            ));
            i = i + f.len();
        } else {
            assert(rest.skip(1) =~= t@.skip(i + 1));
            let piece = text.substring_char(i, i + 1);
            out.append(piece);
            assert(piece@ =~= seq![rest[0]]);
            assert(out@ + replaced(t@.skip(i + 1), f@, to@) =~= before + replaced(rest, f@, to@));
            i = i + 1;
        }
    }
    let tail = text.substring_char(i, t.len());
    assert(tail@ =~= t@.skip(i as int));
    out.append(tail);
    out
}

/// The Unicode white space characters.
pub open spec fn white_space(c: char) -> bool {
    let v = c as int;
    ||| 0x9 <= v <= 0xd
    ||| v == 0x20
    ||| v == 0x85
    ||| v == 0xa0
    ||| v == 0x1680
    ||| 0x2000 <= v <= 0x200a
    ||| v == 0x2028
    ||| v == 0x2029
    ||| v == 0x202f
    ||| v == 0x205f
    ||| v == 0x3000
}

fn is_white_space(c: char) -> (w: bool)
    ensures
        w == white_space(c),
{
    let v: u32 = c as u32;
    (0x9 <= v && v <= 0xd) || v == 0x20 || v == 0x85 || v == 0xa0 || v == 0x1680 || (0x2000 <= v
        && v <= 0x200a) || v == 0x2028 || v == 0x2029 || v == 0x202f || v == 0x205f || v == 0x3000
}

/// `t` is `s` without the white space around it.
pub open spec fn is_trimmed(s: Seq<char>, t: Seq<char>) -> bool {
    exists|i: int, j: int| #[trigger] trims_to(s, i, j) && t == s.subrange(i, j)
}

/// Everything outside `i..j` is white space, and `i..j` neither begins nor ends with white space.
pub open spec fn trims_to(s: Seq<char>, i: int, j: int) -> bool {
    &&& 0 <= i <= j <= s.len()
    &&& forall|k: int| 0 <= k < i ==> white_space(#[trigger] s[k])
    &&& forall|k: int| j <= k < s.len() ==> white_space(#[trigger] s[k])
    &&& i < j ==> !white_space(s[i]) && !white_space(s[j - 1])
}

/// `s` without the white space around it.
pub open spec fn trimmed(s: Seq<char>) -> Seq<char> {
    choose|t: Seq<char>| is_trimmed(s, t)
}

proof fn lemma_trimmed_unique(s: Seq<char>, t: Seq<char>)
    requires
        is_trimmed(s, t),
    ensures
        t == trimmed(s),
{
    let u = trimmed(s);
    let (i, j) = choose|i: int, j: int| #[trigger] trims_to(s, i, j) && t == s.subrange(i, j);
    let (p, q) = choose|p: int, q: int| #[trigger] trims_to(s, p, q) && u == s.subrange(p, q);
    if i < j {
        assert(!white_space(s[i]));
        assert(!white_space(s[j - 1]));
        assert(p <= i && j <= q);
        assert(p < q);
        assert(!white_space(s[p]) && !white_space(s[q - 1]));
        assert(i <= p && q <= j);
    } else {
        if p < q {
            assert(!white_space(s[p]));
            assert(false);
        }
        assert(t =~= u);
    }
}

/// Removes the white space around a text.
pub fn trim(text: &str) -> (s: String)
    ensures
        s@ == trimmed(text@),
        is_trimmed(text@, s@),
{
    let t = chars_of(text);
    let mut i: usize = 0;
    while i < t.len() && is_white_space(t[i])
        invariant
            i <= t.len(),
            forall|k: int| 0 <= k < i ==> white_space(t@[k]),
        decreases t.len() - i,
    {
        i = i + 1;
    }
    let mut j: usize = t.len();
    while i < j && is_white_space(t[j - 1])
        invariant
            i <= j <= t.len(),
            forall|k: int| j <= k < t.len() ==> white_space(t@[k]),
        decreases j,
    {
        j = j - 1;
    }
    let piece = text.substring_char(i, j);
    assert(trims_to(text@, i as int, j as int));
    proof {
        lemma_trimmed_unique(text@, piece@);
    }
    String::from_str(piece)
}

/// What `String::from_utf8_lossy` makes of `bytes`.
pub uninterp spec fn lossy_text(bytes: Seq<u8>) -> Seq<char>;

/// Calls `String::from_utf8_lossy`, which turns bytes into text and puts a replacement
/// character where the bytes are not UTF-8. Claimed of it: the text is a function of the bytes,
/// and bytes that are UTF-8 are decoded as they stand.
#[verifier::external_body]
pub(crate) fn from_utf8_lossy(bytes: &[u8]) -> (s: String)
    ensures
        s@ == lossy_text(bytes@),
        valid_utf8(bytes@) ==> s@ == decode_utf8(bytes@),
{
    String::from_utf8_lossy(bytes).into_owned()
}

/// Calls `std::str::from_utf8`. Claimed of it: it succeeds exactly on UTF-8, and what it then
/// gives is the decoded text.
#[verifier::external_body]
pub(crate) fn from_utf8(bytes: &[u8]) -> (s: Option<&str>)
    ensures
        s is Some <==> valid_utf8(bytes@),
        s matches Some(text) ==> text@ == decode_utf8(bytes@),
{
    std::str::from_utf8(bytes).ok()
}

/// The number that digits stand for.
pub open spec fn number_of(digits: Seq<char>) -> int
    decreases digits.len(),
{
    if digits.len() == 0 {
        0
    } else {
        10 * number_of(digits.drop_last()) + (digits.last() as int - '0' as int)
    }
}

/// A number that is written down reads back as it was, in digits alone and without a leading zero.
/// So two numbers that are written alike are the same.
pub proof fn law_decimal_reads_back(n: nat)
    ensures
        number_of(decimal(n)) == n,
        decimal(n).len() > 0,
        forall|i: int|
            0 <= i < decimal(n).len() ==> '0' as int <= (#[trigger] decimal(n)[i]) as int <= '9' as int,
        decimal(n)[0] == '0' ==> n == 0,
    decreases n,
{
    let text = decimal(n);
    if n < 10 {
        assert(text.drop_last() =~= Seq::empty());
        assert(number_of(text.drop_last()) == 0);
        assert(text.last() == digit(n));
    } else {
        law_decimal_reads_back(n / 10);
        assert(text.drop_last() =~= decimal(n / 10));
        assert(text.last() == digit(n % 10));
        assert(text[0] == decimal(n / 10)[0]);
    }
}

/// A string comes before what it begins, and of two strings that differ first in one place the one
/// with the smaller character there comes first.
pub proof fn law_text_order_goes_by_the_first_difference(
    common: Seq<char>,
    a: char,
    b: char,
    rest: Seq<char>,
    other: Seq<char>,
)
    requires
        (a as int) < (b as int),
    ensures
        text_before(common, common.push(a) + rest),
        text_before(common.push(a) + rest, common.push(b) + other),
        !text_before(common.push(b) + other, common.push(a) + rest),
    decreases common.len(),
{
    let x = common.push(a) + rest;
    let y = common.push(b) + other;
    if common.len() > 0 {
        let tail = common.skip(1);
        law_text_order_goes_by_the_first_difference(tail, a, b, rest, other);
        assert(x.skip(1) =~= tail.push(a) + rest);
        assert(y.skip(1) =~= tail.push(b) + other);
        assert(x[0] == common[0] && y[0] == common[0]);
    } else {
        assert(x[0] == a && y[0] == b);
    }
}

/// Text in which `from` does not occur stays as it is. Otherwise what comes before its first
/// occurrence stays, `to` stands in its place, and what comes after it is treated likewise.
pub proof fn law_replacement_goes_by_the_first_occurrence(
    text: Seq<char>,
    from: Seq<char>,
    to: Seq<char>,
    n: int,
)
    requires
        from.len() > 0,
    ensures
        !has_text(text, from) ==> replaced(text, from, to) == text,
        occurs_at(text, from, n) && (forall|i: int| 0 <= i < n ==> !occurs_at(text, from, i))
            ==> replaced(text, from, to) == text.take(n) + to + replaced(
            text.skip(n + from.len()),
            from,
            to,
        ),
    decreases text.len(),
{
    if text.len() >= from.len() && !occurs_at(text, from, 0) {
        let tail = text.skip(1);
        law_replacement_goes_by_the_first_occurrence(tail, from, to, n - 1);
        assert forall|i: int| #[trigger] occurs_at(tail, from, i) implies occurs_at(
            text,
            from,
            i + 1,
        ) by {
            assert(tail.subrange(i, i + from.len()) =~= text.subrange(i + 1, i + 1 + from.len()));
        }
        if !has_text(text, from) {
            assert(!has_text(tail, from));
            assert(seq![text[0]] + tail =~= text);
        }
        if occurs_at(text, from, n) && (forall|i: int| 0 <= i < n ==> !occurs_at(text, from, i)) {
            assert(n > 0);
            assert(tail.subrange(n - 1, n - 1 + from.len()) =~= text.subrange(n, n + from.len()));
            assert(occurs_at(tail, from, n - 1));
            assert(tail.skip(n - 1 + from.len()) =~= text.skip(n + from.len()));
            assert(seq![text[0]] + tail.take(n - 1) =~= text.take(n));
            assert(seq![text[0]] + (tail.take(n - 1) + to + replaced(
                tail.skip(n - 1 + from.len()),
                from,
                to,
            )) =~= text.take(n) + to + replaced(text.skip(n + from.len()), from, to));
        }
    } else if text.len() >= from.len() {
        assert(has_text(text, from));
        if occurs_at(text, from, n) && (forall|i: int| 0 <= i < n ==> !occurs_at(text, from, i)) {
            assert(n == 0);
            assert(text.take(0) + to =~= to);
        }
    } else {
        if has_text(text, from) {
            let i = choose|i: int| #[trigger] occurs_at(text, from, i);
            assert(false);
        }
    }
}

/// A blank: a space, of any width, or what moves to another line or column.
pub open spec fn is_blank(c: char) -> bool {
    let v = c as int;
    ||| v == ' ' as int || 9 <= v <= 13
    ||| v == 0x85 || v == 0xa0 || v == 0x1680
    ||| 0x2000 <= v <= 0x200a
    ||| v == 0x2028 || v == 0x2029 || v == 0x202f || v == 0x205f || v == 0x3000
}

/// Blanks around a text make no difference: what is left of it is the text itself, if it neither
/// begins nor ends with one.
pub proof fn law_trim_takes_off_blanks(
    before: Seq<char>,
    core: Seq<char>,
    after: Seq<char>,
    text: &str,
    left: String,
)
    requires
        text@ == before + core + after,
        forall|i: int| 0 <= i < before.len() ==> is_blank(#[trigger] before[i]),
        forall|i: int| 0 <= i < after.len() ==> is_blank(#[trigger] after[i]),
        core.len() > 0 ==> !is_blank(core[0]) && !is_blank(core.last()),
        call_ensures(trim, (text,), left),
    ensures
        left@ == core,
{
    let s = text@;
    let i = before.len() as int;
    let j = i + core.len();
    assert forall|k: int| 0 <= k < i implies white_space(#[trigger] s[k]) by {
        assert(s[k] == before[k]);
    }
    assert forall|k: int| j <= k < s.len() implies white_space(#[trigger] s[k]) by {
        assert(s[k] == after[k - j]);
    }
    if core.len() > 0 {
        assert(s[i] == core[0]);
        assert(s[j - 1] == core.last());
    }
    assert(trims_to(s, i, j));
    assert(s.subrange(i, j) =~= core);
    lemma_trimmed_unique(s, core);
}

} // verus!
