//! Text building blocks: splitting, prefixes, decimal numbers and byte lists.
//!
//! A string is modelled by its sequence of characters.

use vstd::prelude::*;
use vstd::slice::slice_to_vec;
use vstd::utf8;

verus! {

/// The position of the first `c` in `s`, or the length of `s` where there is none.
pub open spec fn index_of(s: Seq<char>, c: char) -> int
    decreases s.len(),
{
    if s.len() == 0 || s[0] == c {
        0
    } else {
        1 + index_of(s.drop_first(), c)
    }
}

/// Splits `s` at the first `n - 1` occurrences of `c`, giving at most `n` parts.
/// The last part holds whatever is left, further separators among it.
pub open spec fn split_n(s: Seq<char>, n: nat, c: char) -> Seq<Seq<char>>
    decreases n,
{
    if n == 0 {
        seq![]
    } else if n == 1 || !s.contains(c) {
        seq![s]
    } else {
        seq![s.take(index_of(s, c))] + split_n(s.skip(index_of(s, c) + 1), (n - 1) as nat, c)
    }
}

/// Whether `s` begins with `prefix`.
pub open spec fn has_prefix(s: Seq<char>, prefix: Seq<char>) -> bool {
    prefix.len() <= s.len() && s.take(prefix.len() as int) == prefix
}

/// One decimal digit.
pub open spec fn digit(d: int) -> char {
    "0123456789"@[d]
}

/// The decimal digits of `n`, without leading zeros.
pub open spec fn decimal(n: nat) -> Seq<char>
    decreases n,
{
    if n < 10 {
        seq![digit(n as int)]
    } else {
        decimal(n / 10).push(digit((n % 10) as int))
    }
}

/// The numbers of `bytes` in decimal, separated by a comma and a space.
pub open spec fn byte_list_items(bytes: Seq<u8>) -> Seq<char>
    decreases bytes.len(),
{
    if bytes.len() == 0 {
        seq![]
    } else if bytes.len() == 1 {
        decimal(bytes[0] as nat)
    } else {
        byte_list_items(bytes.drop_last()) + ", "@ + decimal(bytes.last() as nat)
    }
}

/// How a byte sequence is shown in an error text: `[1, 2, 3]`.
pub open spec fn byte_list(bytes: Seq<u8>) -> Seq<char> {
    "["@ + byte_list_items(bytes) + "]"@
}

/// `index_of` is bounded, finds `c`, and finds nothing before its result.
pub proof fn lemma_index_of(s: Seq<char>, c: char)
    ensures
        0 <= index_of(s, c) <= s.len(),
        index_of(s, c) < s.len() ==> s[index_of(s, c)] == c,
        forall|i: int| 0 <= i < index_of(s, c) ==> s[i] != c,
        s.contains(c) <==> index_of(s, c) < s.len(),
    decreases s.len(),
{
    if s.len() > 0 && s[0] != c {
        let rest = s.drop_first();
        lemma_index_of(rest, c);
        assert forall|i: int| 0 <= i < index_of(s, c) implies s[i] != c by {
            if i > 0 {
                assert(s[i] == rest[i - 1]);
            }
        }
        if index_of(s, c) < s.len() {
            assert(s[index_of(s, c)] == rest[index_of(rest, c)]);
        }
    }
    if s.contains(c) {
        let i = choose|i: int| 0 <= i < s.len() && s[i] == c;
        assert(i >= index_of(s, c));
    }
}

/// A position that holds the first `c` is `index_of`.
pub proof fn lemma_index_of_unique(s: Seq<char>, c: char, i: int)
    requires
        0 <= i <= s.len(),
        i < s.len() ==> s[i] == c,
        forall|j: int| 0 <= j < i ==> s[j] != c,
    ensures
        index_of(s, c) == i,
{
    lemma_index_of(s, c);
    if index_of(s, c) < i {
        assert(s[index_of(s, c)] != c);
    }
}

/// Text that is made of a part without `c`, of `c` and of more text splits after the first part.
pub proof fn lemma_split_n_step(head: Seq<char>, c: char, rest: Seq<char>, n: nat)
    requires
        n >= 2,
        !head.contains(c),
    ensures
        split_n(head.push(c) + rest, n, c) == seq![head] + split_n(rest, (n - 1) as nat, c),
{
    let s = head.push(c) + rest;
    assert forall|j: int| 0 <= j < head.len() implies s[j] != c by {
        assert(head.contains(head[j]));
    }
    lemma_index_of_unique(s, c, head.len() as int);
    lemma_index_of(s, c);
    assert(s.take(head.len() as int) =~= head);
    assert(s.skip(head.len() as int + 1) =~= rest);
}

/// The first part and what follows it make up the whole text again.
pub proof fn lemma_split_n_joins(s: Seq<char>, n: nat, c: char)
    requires
        n >= 2,
        split_n(s, n, c).len() >= 2,
    ensures
        s.contains(c),
        split_n(s, n, c)[0] == s.take(index_of(s, c)),
        split_n(s, n, c).drop_first() == split_n(
            s.skip(index_of(s, c) + 1),
            (n - 1) as nat,
            c,
        ),
        s == split_n(s, n, c)[0].push(c) + s.skip(index_of(s, c) + 1),
{
    lemma_index_of(s, c);
    assert(split_n(s, n, c).drop_first() =~= split_n(
        s.skip(index_of(s, c) + 1),
        (n - 1) as nat,
        c,
    ));
    assert(s =~= split_n(s, n, c)[0].push(c) + s.skip(index_of(s, c) + 1));
}

/// Parts put together again, with `c` between them.
pub open spec fn joined(parts: Seq<Seq<char>>, c: char) -> Seq<char>
    decreases parts.len(),
{
    if parts.len() == 0 {
        seq![]
    } else if parts.len() == 1 {
        parts[0]
    } else {
        parts[0].push(c) + joined(parts.drop_first(), c)
    }
}

/// Splitting loses nothing and splits nowhere else: the parts put together again are the text, no
/// part but the last holds the separator, and the last holds it only where no more parts were
/// allowed.
pub proof fn law_split_n_joins_to_the_text(s: Seq<char>, n: nat, c: char)
    requires
        n >= 1,
    ensures
        1 <= split_n(s, n, c).len() <= n,
        joined(split_n(s, n, c), c) == s,
        forall|i: int|
            0 <= i < split_n(s, n, c).len() - 1 ==> !(#[trigger] split_n(s, n, c)[i]).contains(c),
        split_n(s, n, c).len() < n ==> !split_n(s, n, c).last().contains(c),
    decreases n,
{
    let parts = split_n(s, n, c);
    if n > 1 && s.contains(c) {
        let rest = s.skip(index_of(s, c) + 1);
        let tail = split_n(rest, (n - 1) as nat, c);
        lemma_index_of(s, c);
        law_split_n_joins_to_the_text(rest, (n - 1) as nat, c);
        assert(parts.len() == 1 + tail.len());
        lemma_split_n_joins(s, n, c);
        assert(parts.drop_first() =~= tail);
        assert(joined(parts, c) =~= s);
        assert(!parts[0].contains(c)) by {
            if parts[0].contains(c) {
                let i = choose|i: int| 0 <= i < parts[0].len() && parts[0][i] == c;
                assert(s[i] == c);
            }
        }
        assert forall|i: int| 0 <= i < parts.len() - 1 implies !(#[trigger] parts[i]).contains(
            c,
        ) by {
            if i > 0 {
                assert(parts[i] == tail[i - 1]);
            }
        }
        assert(parts.last() == tail.last());
    } else {
        assert(parts =~= seq![s]);
    }
}

/// Nothing is split off where no part is allowed.
pub proof fn law_split_n_of_no_parts(s: Seq<char>, c: char)
    ensures
        split_n(s, 0, c).len() == 0,
{
}

/// Text has a prefix exactly where something can be put behind the prefix to give the text.
pub proof fn law_prefix_and_what_follows(s: Seq<char>, prefix: Seq<char>, rest: Seq<char>)
    ensures
        has_prefix(prefix + rest, prefix),
        (prefix + rest).skip(prefix.len() as int) == rest,
        has_prefix(s, prefix) ==> s == prefix + s.skip(prefix.len() as int),
{
    assert((prefix + rest).take(prefix.len() as int) =~= prefix);
    assert((prefix + rest).skip(prefix.len() as int) =~= rest);
    if has_prefix(s, prefix) {
        assert(s =~= s.take(prefix.len() as int) + s.skip(prefix.len() as int));
    }
}

/// The number that decimal digits stand for.
pub open spec fn digits_value(s: Seq<char>) -> int
    decreases s.len(),
{
    if s.len() == 0 {
        0
    } else {
        10 * digits_value(s.drop_last()) + (s.last() as int - '0' as int)
    }
}

/// A number is written in digits that stand for it, without a needless zero in front.
pub proof fn law_decimal_stands_for_the_number(n: nat)
    ensures
        digits_value(decimal(n)) == n,
        decimal(n).len() >= 1,
        forall|i: int| 0 <= i < decimal(n).len() ==> '0' <= #[trigger] decimal(n)[i] <= '9',
        n > 0 ==> decimal(n)[0] != '0',
        n == 0 ==> decimal(n).len() == 1,
    decreases n,
{
    reveal_strlit("0123456789");
    let s = decimal(n);
    if n < 10 {
        assert(s.drop_last() =~= seq![]);
        reveal_with_fuel(digits_value, 2);
        assert(s.last() == digit(n as int));
    } else {
        law_decimal_stands_for_the_number(n / 10);
        let front = decimal(n / 10);
        assert(s.drop_last() =~= front);
        assert(s.last() == digit((n % 10) as int));
        assert forall|i: int| 0 <= i < s.len() implies '0' <= #[trigger] s[i] <= '9' by {
            if i < front.len() {
                assert(s[i] == front[i]);
            }
        }
        assert(s[0] == front[0]);
    }
}

/// A byte list begins and ends with a bracket, and each further byte follows a comma and a space.
pub proof fn law_byte_list_grows_byte_by_byte(bytes: Seq<u8>, b: u8)
    ensures
        byte_list(seq![]) == "[]"@,
        byte_list(seq![b]) == "["@ + decimal(b as nat) + "]"@,
        bytes.len() > 0 ==> byte_list(bytes.push(b)) == byte_list(bytes).drop_last() + ", "@
            + decimal(b as nat) + "]"@,
{
    reveal_strlit("[");
    reveal_strlit("]");
    reveal_strlit("[]");
    assert(byte_list(seq![]) =~= "[]"@);
    assert(byte_list(seq![b]) =~= "["@ + decimal(b as nat) + "]"@);
    if bytes.len() > 0 {
        assert(bytes.push(b).drop_last() =~= bytes);
        assert(byte_list(bytes).drop_last() =~= "["@ + byte_list_items(bytes));
        assert(byte_list(bytes.push(b)) =~= byte_list(bytes).drop_last() + ", "@ + decimal(
            b as nat,
        ) + "]"@);
    }
}

/// Finds the first `c` in `s`, counted in characters.
fn find_char(s: &str, c: char) -> (i: usize)
    ensures
        i == index_of(s@, c),
        i <= s@.len(),
{
    let n: usize = s.unicode_len();
    let mut i: usize = 0;
    for x in it: s.chars()
        invariant
            n == s@.len(),
            it.seq() == s@,
            i == it.index(),
            forall|j: int| 0 <= j < i ==> s@[j] != c,
    {
        if x == c {
            proof {
                lemma_index_of_unique(s@, c, i as int);
            }
            return i;
        }
        i += 1;
    }
    proof {
        lemma_index_of_unique(s@, c, i as int);
    }
    i
}

/// Splits `s` at the first `n - 1` occurrences of `c`.
pub fn splitn<'a>(s: &'a str, n: usize, c: char) -> (parts: Vec<&'a str>)
    ensures
        parts@.len() == split_n(s@, n as nat, c).len(),
        forall|i: int|
            0 <= i < parts@.len() ==> (#[trigger] parts@[i])@ == split_n(s@, n as nat, c)[i],
{
    let mut parts: Vec<&'a str> = Vec::new();
    if n == 0 {
        return parts;
    }
    let mut rest: &'a str = s;
    let mut left: usize = n;
    proof {
        assert(split_n(s@, n as nat, c) =~= split_n(rest@, left as nat, c));
    }
    while left > 1
        invariant_except_break
            1 <= left <= n,
            split_n(s@, n as nat, c).len() == parts@.len() + split_n(rest@, left as nat, c).len(),
            forall|i: int|
                0 <= i < parts@.len() ==> (#[trigger] parts@[i])@ == split_n(s@, n as nat, c)[i],
            forall|i: int|
                #![trigger split_n(s@, n as nat, c)[i]]
                parts@.len() <= i < split_n(s@, n as nat, c).len() ==> split_n(s@, n as nat, c)[i]
                    == split_n(rest@, left as nat, c)[i - parts@.len()],
        ensures
            split_n(s@, n as nat, c).len() == parts@.len() + 1,
            forall|i: int|
                0 <= i < parts@.len() ==> (#[trigger] parts@[i])@ == split_n(s@, n as nat, c)[i],
            split_n(s@, n as nat, c)[parts@.len() as int] == rest@,
        decreases left,
    {
        let total: usize = rest.unicode_len();
        let i: usize = find_char(rest, c);
        proof {
            lemma_index_of(rest@, c);
        }
        if i == total {
            assert(split_n(rest@, left as nat, c)[0] == rest@);
            break;
        }
        let ghost before = rest@;
        let part = rest.substring_char(0, i);
        assert(part@ == before.take(i as int));
        rest = rest.substring_char(i + 1, total);
        assert(rest@ == before.skip(i + 1));
        parts.push(part);
        left -= 1;
    }
    parts.push(rest);
    parts
}

/// Whether two strings are the same.
pub fn equal(a: &str, b: &str) -> (r: bool)
    ensures
        r == (a@ == b@),
{
    a.to_owned() == b.to_owned()
}

/// Whether two byte slices hold the same bytes.
pub fn equal_bytes(a: &[u8], b: &[u8]) -> (r: bool)
    ensures
        r == (a@ == b@),
{
    if a.len() != b.len() {
        return false;
    }
    let mut i: usize = 0;
    while i < a.len()
        invariant
            i <= a@.len(),
            a@.len() == b@.len(),
            forall|j: int| 0 <= j < i ==> a@[j] == b@[j],
        decreases a@.len() - i,
    {
        if a[i] != b[i] {
            return false;
        }
        i += 1;
    }
    assert(a@ =~= b@);
    true
}

/// What follows `prefix` in `s`, where `s` begins with it.
pub fn strip_prefix<'a>(s: &'a str, prefix: &str) -> (r: Option<&'a str>)
    ensures
        r is Some <==> has_prefix(s@, prefix@),
        r matches Some(t) ==> t@ == s@.skip(prefix@.len() as int),
{
    let n: usize = s.unicode_len();
    let m: usize = prefix.unicode_len();
    if m > n {
        return None;
    }
    let head = s.substring_char(0, m);
    assert(head@ == s@.take(m as int));
    if equal(head, prefix) {
        let t = s.substring_char(m, n);
        assert(t@ == s@.skip(m as int));
        Some(t)
    } else {
        None
    }
}

/// Whether `s` begins with `prefix`.
pub fn starts_with(s: &str, prefix: &str) -> (r: bool)
    ensures
        r == has_prefix(s@, prefix@),
{
    strip_prefix(s, prefix).is_some()
}

/// The bytes of `s` in UTF-8.
pub fn utf8_bytes(s: &str) -> (r: Vec<u8>)
    ensures
        r@ == utf8::encode_utf8(s@),
{
    slice_to_vec(s.as_bytes())
}

/// Writes `n` in decimal.
pub fn format_decimal(n: usize) -> (r: String)
    ensures
        r@ == decimal(n as nat),
    decreases n,
{
    let digits = "0123456789";
    proof {
        reveal_strlit("0123456789");
    }
    if n < 10 {
        let r = digits.substring_char(n, n + 1).to_owned();
        assert(r@ =~= decimal(n as nat));
        r
    } else {
        let mut r = format_decimal(n / 10);
        let d: usize = n % 10;
        r.append(digits.substring_char(d, d + 1));
        assert(r@ =~= decimal(n as nat));
        r
    }
}

/// Writes `bytes` as a bracketed list of decimal numbers.
pub fn format_byte_list(bytes: &[u8]) -> (r: String)
    ensures
        r@ == byte_list(bytes@),
{
    let mut r = "[".to_owned();
    let mut i: usize = 0;
    assert(r@ =~= "["@ + byte_list_items(bytes@.take(0)));
    while i < bytes.len()
        invariant
            i <= bytes@.len(),
            r@ == "["@ + byte_list_items(bytes@.take(i as int)),
        decreases bytes@.len() - i,
    {
        let ghost before = r@;
        if i > 0 {
            r.append(", ");
        }
        r.append(format_decimal(bytes[i] as usize).as_str());
        proof {
            let done = bytes@.take(i + 1);
            assert(done.drop_last() =~= bytes@.take(i as int));
            assert(done.last() == bytes@[i as int]);
            assert(r@ =~= "["@ + byte_list_items(done));
        }
        i += 1;
    }
    assert(bytes@.take(i as int) =~= bytes@);
    r.append("]");
    r
}

} // verus!
