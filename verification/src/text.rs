//! Text: comparing, searching, joining, and the decimal form of numbers.

use vstd::prelude::*;

verus! {

/// The character of a decimal digit.
pub open spec fn digit(d: nat) -> char {
    (48 + d) as u8 as char
}

/// The shortest decimal form of a number.
pub open spec fn decimal(n: nat) -> Seq<char>
    decreases n,
{
    if n < 10 {
        seq![digit(n)]
    } else {
        decimal(n / 10).push(digit(n % 10))
    }
}

/// Whether a text is made of decimal digits, at least one.
pub open spec fn is_numeral(digits: Seq<char>) -> bool {
    &&& digits.len() > 0
    &&& forall|i: int| 0 <= i < digits.len() ==> '0' <= #[trigger] digits[i] <= '9'
}

/// The number that a row of decimal digits stands for.
pub open spec fn numeral_value(digits: Seq<char>) -> nat
    decreases digits.len(),
{
    if digits.len() == 0 {
        0
    } else {
        10 * numeral_value(digits.drop_last()) + (digits.last() as nat - 48) as nat
    }
}

/// A text without its leading plus sign, where it has one.
pub open spec fn without_plus(text: Seq<char>) -> Seq<char> {
    if text.len() > 0 && text[0] == '+' {
        text.drop_first()
    } else {
        text
    }
}

/// The number that a text denotes: an optional plus sign followed by decimal
/// digits only, within the range of `usize`.
pub open spec fn number(text: Seq<char>) -> Option<usize> {
    let digits = without_plus(text);
    if is_numeral(digits) && numeral_value(digits) <= usize::MAX {
        Some(numeral_value(digits) as usize)
    } else {
        None
    }
}

/// Whether `pattern` stands somewhere in `text`.
pub open spec fn occurs_in(pattern: Seq<char>, text: Seq<char>) -> bool {
    exists|i: int| #[trigger] occurs_at(pattern, text, i)
}

/// Whether `pattern` stands in `text` from position `i` on.
pub open spec fn occurs_at(pattern: Seq<char>, text: Seq<char>, i: int) -> bool {
    &&& 0 <= i <= text.len() - pattern.len()
    &&& text.subrange(i, i + pattern.len()) == pattern
}

/// The characters of a text.
pub fn chars_of(text: &str) -> (chars: Vec<char>)
    ensures
        chars@ == text@,
{
    let mut chars: Vec<char> = Vec::new();
    for c in iter: text.chars()
        invariant
            iter.seq() == text@,
            chars@ == text@.take(iter.index() as int),
    {
        chars.push(c);
    }
    chars
}

/// Whether two texts hold the same characters.
pub fn same(a: &str, b: &str) -> (r: bool)
    ensures
        r == (a@ == b@),
{
    let left = chars_of(a);
    let right = chars_of(b);
    if left.len() != right.len() {
        return false;
    }
    let mut i: usize = 0;
    while i < left.len()
        invariant
            left@ == a@,
            right@ == b@,
            left.len() == right.len(),
            i <= left.len(),
            forall|j: int| 0 <= j < i ==> left@[j] == right@[j],
        decreases left.len() - i,
    {
        if left[i] != right[i] {
            return false;
        }
        i = i + 1;
    }
    assert(left@ =~= right@);
    true
}

/// Whether `pattern` stands somewhere in `text`.
pub fn contains(text: &str, pattern: &str) -> (r: bool)
    ensures
        r == occurs_in(pattern@, text@),
{
    let hay = chars_of(text);
    let needle = chars_of(pattern);
    let mut i: usize = 0;
    while i <= hay.len() && needle.len() <= hay.len() - i
        invariant
            hay@ == text@,
            needle@ == pattern@,
            i <= hay.len() + 1,
            forall|k: int| 0 <= k < i ==> !occurs_at(pattern@, text@, k),
        decreases hay.len() + 1 - i,
    {
        let mut j: usize = 0;
        while j < needle.len() && hay[i + j] == needle[j]
            invariant
                j <= needle.len(),
                i + needle.len() <= hay.len(),
                forall|k: int| 0 <= k < j ==> hay@[i + k] == needle@[k],
            decreases needle.len() - j,
        {
            j = j + 1;
        }
        if j == needle.len() {
            assert(hay@.subrange(i as int, i + needle@.len()) =~= needle@);
            assert(occurs_at(pattern@, text@, i as int));
            return true;
        }
        assert(!occurs_at(pattern@, text@, i as int)) by {
            assert(hay@.subrange(i as int, i + needle@.len())[j as int] == hay@[i + j]);
        }
        i = i + 1;
    }
    assert forall|k: int| !occurs_at(pattern@, text@, k) by {}
    false
}

/// A text as `Debug` shows it: in quotes, with escapes.
pub uninterp spec fn quoted(text: Seq<char>) -> Seq<char>;

/// A path as `Debug` shows it: in quotes, with escapes.
pub uninterp spec fn quoted_path(path: Seq<char>) -> Seq<char>;

/// `Debug` of `str`. The contract claims only that the form is a function of
/// the text; which characters are escaped, and how, is left unsaid.
#[verifier::external_body]
pub(crate) fn quote(text: &str) -> (r: String)
    ensures
        r@ == quoted(text@),
{
    format!("{:?}", text)
}

/// `Debug` of `std::path::Path`, on the path that a text spells. The contract
/// claims only that the form is a function of the text; which characters are
/// escaped, and how, is left unsaid.
#[verifier::external_body]
pub(crate) fn quote_path(path: &str) -> (r: String)
    ensures
        r@ == quoted_path(path@),
{
    format!("{:?}", std::path::Path::new(path))
}

/// Two texts, one after the other.
pub fn join(a: &str, b: &str) -> (r: String)
    ensures
        r@ == a@ + b@,
{
    let mut r = a.to_owned();
    r.append(b);
    r
}

/// Three texts, one after the other.
pub fn join3(a: &str, b: &str, c: &str) -> (r: String)
    ensures
        r@ == a@ + b@ + c@,
{
    let mut r = join(a, b);
    r.append(c);
    r
}

/// Four texts, one after the other.
pub fn join4(a: &str, b: &str, c: &str, d: &str) -> (r: String)
    ensures
        r@ == a@ + b@ + c@ + d@,
{
    let mut r = join3(a, b, c);
    r.append(d);
    r
}

/// The texts, each followed by a line break.
pub open spec fn lines(texts: Seq<Seq<char>>) -> Seq<char>
    decreases texts.len(),
{
    if texts.len() == 0 {
        Seq::empty()
    } else {
        lines(texts.drop_last()) + (texts.last() + "\n"@)
    }
}

/// The texts, each followed by a line break.
pub fn join_lines(texts: &Vec<String>) -> (r: String)
    ensures
        r@ == lines(texts@.map_values(|text: String| text@)),
{
    let ghost all = texts@.map_values(|text: String| text@);
    let mut r = String::new();
    let mut i: usize = 0;
    while i < texts.len()
        invariant
            i <= texts.len(),
            all == texts@.map_values(|text: String| text@),
            r@ == lines(all.take(i as int)),
        decreases texts.len() - i,
    {
        let line = join(texts[i].as_str(), "\n");
        r.append(line.as_str());
        proof {
            assert(all.take(i + 1).drop_last() =~= all.take(i as int));
            assert(all.take(i + 1).last() == texts@[i as int]@);
        }
        i = i + 1;
    }
    assert(all.take(i as int) =~= all);
    r
}

/// The number that a text denotes, as [`number`] says.
pub fn parse_number(text: &str) -> (r: Option<usize>)
    ensures
        r == number(text@),
{
    let chars = chars_of(text);
    let start: usize = if chars.len() > 0 && chars[0] == '+' {
        1
    } else {
        0
    };
    let ghost digits = without_plus(text@);
    assert(digits =~= chars@.skip(start as int));
    if start == chars.len() {
        return None;
    }
    let mut value: usize = 0;
    let mut i: usize = start;
    while i < chars.len()
        invariant
            start <= i <= chars.len(),
            digits == chars@.skip(start as int),
            digits == without_plus(text@),
            value == numeral_value(digits.take(i - start)),
            forall|k: int| 0 <= k < i - start ==> '0' <= #[trigger] digits[k] <= '9',
        decreases chars.len() - i,
    {
        let c = chars[i];
        assert(digits[i - start] == c);
        if c < '0' || c > '9' {
            return None;
        }
        let d: usize = (c as u32 - 48) as usize;
        let ghost seen = digits.take(i - start + 1);
        assert(seen.drop_last() =~= digits.take(i - start));
        assert(numeral_value(seen) == 10 * value + d);
        if value > usize::MAX / 10 || 10 * value > usize::MAX - d {
            proof {
                lemma_prefix_value(digits, i - start + 1);
            }
            return None;
        }
        value = 10 * value + d;
        i = i + 1;
    }
    assert(digits.take(i - start) =~= digits);
    Some(value)
}

/// A prefix of a row of digits stands for no more than the whole row.
proof fn lemma_prefix_value(digits: Seq<char>, n: int)
    requires
        0 <= n <= digits.len(),
    ensures
        numeral_value(digits.take(n)) <= numeral_value(digits),
    decreases digits.len(),
{
    if n < digits.len() {
        lemma_prefix_value(digits.drop_last(), n);
        assert(digits.drop_last().take(n) =~= digits.take(n));
    } else {
        assert(digits.take(n) =~= digits);
    }
}

/// The text of one decimal digit.
fn digit_text(d: usize) -> (r: &'static str)
    requires
        d < 10,
    ensures
        r@ == seq![digit(d as nat)],
{
    proof {
        reveal_strlit("0");
        reveal_strlit("1");
        reveal_strlit("2");
        reveal_strlit("3");
        reveal_strlit("4");
        reveal_strlit("5");
        reveal_strlit("6");
        reveal_strlit("7");
        reveal_strlit("8");
        reveal_strlit("9");
    }
    let r = match d {
        0 => "0",
        1 => "1",
        2 => "2",
        3 => "3",
        4 => "4",
        5 => "5",
        6 => "6",
        7 => "7",
        8 => "8",
        _ => "9",
    };
    assert(r@ =~= seq![digit(d as nat)]);
    r
}

/// The decimal form of a number.
pub fn decimal_text(n: usize) -> (r: String)
    ensures
        r@ == decimal(n as nat),
    decreases n,
{
    if n < 10 {
        digit_text(n).to_owned()
    } else {
        let mut r = decimal_text(n / 10);
        r.append(digit_text(n % 10));
        assert(r@ =~= decimal(n as nat));
        r
    }
}

/// The decimal form of a number is a row of digits that stands for it.
proof fn lemma_decimal_value(n: nat)
    ensures
        is_numeral(decimal(n)),
        numeral_value(decimal(n)) == n,
    decreases n,
{
    if n < 10 {
        assert(decimal(n).drop_last() =~= Seq::empty());
        assert(numeral_value(decimal(n).drop_last()) == 0);
    } else {
        lemma_decimal_value(n / 10);
        assert(decimal(n).drop_last() =~= decimal(n / 10));
    }
}

/// A size that was printed in decimal is read back as the same number.
pub proof fn law_number_reads_decimal(n: usize)
    ensures
        number(decimal(n as nat)) == Some(n),
        is_numeral(decimal(n as nat)),
{
    lemma_decimal_value(n as nat);
    assert(decimal(n as nat)[0] != '+');
}

/// A pattern occurs in a text if and only if the text is made of something, the
/// pattern and something more.
pub proof fn law_occurs_in(pattern: Seq<char>, text: Seq<char>)
    ensures
        occurs_in(pattern, text) <==> exists|before: Seq<char>, after: Seq<char>|
            text == #[trigger] (before + pattern + after),
{
    if occurs_in(pattern, text) {
        let i = choose|i: int| #[trigger] occurs_at(pattern, text, i);
        let before = text.subrange(0, i);
        let after = text.subrange(i + pattern.len(), text.len() as int);
        assert(text =~= before + text.subrange(i, i + pattern.len()) + after);
        assert(text == before + pattern + after);
    }
    if exists|before: Seq<char>, after: Seq<char>| text == #[trigger] (before + pattern + after) {
        let (before, after) = choose|before: Seq<char>, after: Seq<char>|
            text == #[trigger] (before + pattern + after);
        let i = before.len() as int;
        assert(text.subrange(i, i + pattern.len()) =~= pattern);
        assert(occurs_at(pattern, text, i));
    }
}

/// The decimal form of a number below ten is one digit, and that of a greater
/// number is the decimal form of its tenth part and one digit more.
pub proof fn law_decimal_digits(n: nat, d: nat)
    requires
        d < 10,
    ensures
        decimal(d) == seq![(48 + d) as char],
        n > 0 ==> decimal(10 * n + d) == decimal(n).push((48 + d) as char),
{
    assert((10 * n + d) / 10 == n);
    assert((10 * n + d) % 10 == d);
}

/// That many zeros.
pub open spec fn zeros(count: nat) -> Seq<char> {
    Seq::new(count, |i: int| '0')
}

/// A row of digits is the decimal form of what it stands for, but for zeros
/// before it.
proof fn lemma_numeral_is_decimal(digits: Seq<char>) -> (count: nat)
    requires
        is_numeral(digits),
    ensures
        digits == zeros(count) + decimal(numeral_value(digits)),
    decreases digits.len(),
{
    let rest = digits.drop_last();
    let d = (digits.last() as nat - 48) as nat;
    let n = numeral_value(rest);
    assert(digits =~= rest.push(digits.last()));
    if rest.len() == 0 {
        law_decimal_digits(0, d);
        assert(digits =~= zeros(0) + decimal(d));
        0
    } else {
        let count = lemma_numeral_is_decimal(rest);
        law_decimal_digits(n, d);
        if n == 0 {
            assert(digits =~= zeros(count + 1) + decimal(d));
            count + 1
        } else {
            assert(digits =~= zeros(count) + decimal(10 * n + d));
            count
        }
    }
}

proof fn lemma_zeros_do_not_count(count: nat, n: nat)
    ensures
        is_numeral(zeros(count) + decimal(n)),
        numeral_value(zeros(count) + decimal(n)) == n,
    decreases n,
{
    lemma_decimal_value(n);
    let digits = zeros(count) + decimal(n);
    if n < 10 {
        assert(digits.drop_last() =~= zeros(count));
        lemma_zeros_are_nothing(count);
    } else {
        lemma_zeros_do_not_count(count, n / 10);
        assert(digits.drop_last() =~= zeros(count) + decimal(n / 10));
    }
}

proof fn lemma_zeros_are_nothing(count: nat)
    ensures
        numeral_value(zeros(count)) == 0,
    decreases count,
{
    if count > 0 {
        lemma_zeros_are_nothing((count - 1) as nat);
        assert(zeros(count).drop_last() =~= zeros((count - 1) as nat));
    }
}

/// A text is read as a number if and only if it is the decimal form of that
/// number, with any zeros and then at most one plus sign before it.
pub proof fn law_number_is_read(text: Seq<char>, n: usize)
    ensures
        number(text) == Some(n) <==> exists|count: nat|
            {
                ||| text == #[trigger] zeros(count) + decimal(n as nat)
                ||| text == seq!['+'] + (zeros(count) + decimal(n as nat))
            },
{
    if number(text) == Some(n) {
        let digits = without_plus(text);
        let count = lemma_numeral_is_decimal(digits);
        if text.len() > 0 && text[0] == '+' {
            assert(text =~= seq!['+'] + digits);
        }
        assert(digits == zeros(count) + decimal(n as nat));
    }
    if exists|count: nat|
        {
            ||| text == #[trigger] zeros(count) + decimal(n as nat)
            ||| text == seq!['+'] + (zeros(count) + decimal(n as nat))
        } {
        let count = choose|count: nat|
            {
                ||| text == #[trigger] zeros(count) + decimal(n as nat)
                ||| text == seq!['+'] + (zeros(count) + decimal(n as nat))
            };
        let digits = zeros(count) + decimal(n as nat);
        lemma_zeros_do_not_count(count, n as nat);
        if text == digits {
            assert('0' <= digits[0] <= '9');
            assert(without_plus(text) == digits);
        } else {
            assert(text.drop_first() =~= digits);
        }
    }
}

/// Texts that are printed as lines are printed one by one: nothing is printed
/// for no text, a text and a line break for one text, and for two lists of
/// texts the lines of the one and then those of the other.
pub proof fn law_lines_are_the_texts(a: Seq<Seq<char>>, b: Seq<Seq<char>>, text: Seq<char>)
    ensures
        lines(seq![]) == Seq::<char>::empty(),
        lines(seq![text]) == text + "\n"@,
        lines(a + b) == lines(a) + lines(b),
    decreases b.len(),
{
    assert(seq![text].drop_last() =~= seq![]);
    assert(lines(seq![text].drop_last()) =~= seq![]);
    assert(lines(seq![text]) =~= text + "\n"@);
    if b.len() == 0 {
        assert(a + b =~= a);
        assert(lines(a) + lines(b) =~= lines(a));
    } else {
        law_lines_are_the_texts(a, b.drop_last(), text);
        assert((a + b).drop_last() =~= a + b.drop_last());
        assert(lines(a + b) =~= lines(a) + lines(b));
    }
}

/// How many line breaks there are in a text.
pub open spec fn line_breaks(text: Seq<char>) -> nat {
    text.to_multiset().count('\n')
}

/// Texts without line breaks can be told from their lines: there is one line
/// break for each text, and no other list of such texts has the same lines.
pub proof fn law_lines_can_be_split(a: Seq<Seq<char>>, b: Seq<Seq<char>>)
    requires
        forall|i: int| 0 <= i < a.len() ==> !(#[trigger] a[i]).contains('\n'),
        forall|i: int| 0 <= i < b.len() ==> !(#[trigger] b[i]).contains('\n'),
    ensures
        line_breaks(lines(a)) == a.len(),
        lines(a) == lines(b) ==> a == b,
    decreases a.len(),
{
    broadcast use vstd::seq_lib::group_to_multiset_ensures;

    reveal_strlit("\n");
    if a.len() > 0 {
        law_lines_can_be_split(a.drop_last(), a.drop_last());
        let head = lines(a.drop_last());
        let tail = a.last() + "\n"@;
        vstd::seq_lib::lemma_multiset_commutative(head, tail);
        assert(tail =~= a.last().push('\n'));
        assert(a[a.len() - 1] == a.last());
        assert(tail.to_multiset().count('\n') == 1);
    } else {
        lines(a).to_multiset_ensures();
        assert(!lines(a).contains('\n'));
    }
    if lines(a) == lines(b) {
        if a.len() == 0 {
            if b.len() > 0 {
                assert(lines(b).len() > 0);
            }
            assert(a =~= b);
        } else {
            assert(lines(a).len() > 0);
            assert(b.len() > 0);
            lemma_last_line(a, b);
            law_lines_can_be_split(a.drop_last(), b.drop_last());
            assert(a =~= a.drop_last().push(a.last()));
            assert(b =~= b.drop_last().push(b.last()));
        }
    }
}

proof fn lemma_lines_end(texts: Seq<Seq<char>>)
    ensures
        texts.len() > 0 ==> lines(texts).len() > 0 && lines(texts).last() == '\n',
{
    reveal_strlit("\n");
}

/// The last of some texts without line breaks, and the lines before it, are
/// told from their lines.
proof fn lemma_last_line(a: Seq<Seq<char>>, b: Seq<Seq<char>>)
    requires
        a.len() > 0,
        b.len() > 0,
        !a.last().contains('\n'),
        !b.last().contains('\n'),
        lines(a) == lines(b),
    ensures
        a.last() == b.last(),
        lines(a.drop_last()) == lines(b.drop_last()),
{
    reveal_strlit("\n");
    let x = lines(a.drop_last());
    let y = lines(b.drop_last());
    let all = lines(a);
    assert(all == x + (a.last() + "\n"@));
    assert(all == y + (b.last() + "\n"@));
    lemma_lines_end(a.drop_last());
    lemma_lines_end(b.drop_last());
    if x.len() < y.len() {
        assert(all[y.len() - 1] == '\n');
        assert(a.last()[y.len() - 1 - x.len()] == '\n');
    }
    if y.len() < x.len() {
        assert(all[x.len() - 1] == '\n');
        assert(b.last()[x.len() - 1 - y.len()] == '\n');
    }
    assert(x =~= all.subrange(0, x.len() as int));
    assert(y =~= all.subrange(0, x.len() as int));
    assert(a.last() =~= all.subrange(x.len() as int, all.len() - 1));
    assert(b.last() =~= all.subrange(x.len() as int, all.len() - 1));
}

} // verus!
