//! IPv4 addresses as plain values: construction, formatting, parsing.

use vstd::prelude::*;

verus! {

/// An IPv4 address, held as its four octets. Compared by value equality;
/// immutable once observed.
#[derive(Clone, Copy, Debug, PartialEq, Eq, Structural, Hash)]
pub struct Address {
    pub o1: u8,
    pub o2: u8,
    pub o3: u8,
    pub o4: u8,
}

impl Address {
    /// The address `o1.o2.o3.o4`.
    pub fn new(o1: u8, o2: u8, o3: u8, o4: u8) -> (r: Address)
        ensures
            r == (Address { o1, o2, o3, o4 }),
    {
        Address { o1, o2, o3, o4 }
    }

    /// The four octets, most significant first.
    pub fn octets(&self) -> (r: [u8; 4])
        ensures
            r@ == seq![self.o1, self.o2, self.o3, self.o4],
    {
        let r = [self.o1, self.o2, self.o3, self.o4];
        proof {
            assert(r@ =~= seq![self.o1, self.o2, self.o3, self.o4]);
        }
        r
    }

    /// The dotted-decimal text of the address, e.g. `192.168.0.1`.
    pub fn to_ipv4_string(&self) -> (r: String)
        ensures
            r@ == addr_chars(*self),
    {
        let mut s = String::new();
        append_octet(&mut s, self.o1);
        s.append(".");
        append_octet(&mut s, self.o2);
        s.append(".");
        append_octet(&mut s, self.o3);
        s.append(".");
        append_octet(&mut s, self.o4);
        proof {
            reveal_strlit(".");
            assert(s@ =~= addr_chars(*self));
        }
        s
    }
}

/// The decimal digit character for a value below ten.
pub open spec fn digit_char(d: int) -> char {
    if d == 0 {
        '0'
    } else if d == 1 {
        '1'
    } else if d == 2 {
        '2'
    } else if d == 3 {
        '3'
    } else if d == 4 {
        '4'
    } else if d == 5 {
        '5'
    } else if d == 6 {
        '6'
    } else if d == 7 {
        '7'
    } else if d == 8 {
        '8'
    } else {
        '9'
    }
}

/// The shortest decimal text of an octet value: one to three digits, no
/// leading zero.
pub open spec fn octet_chars(n: int) -> Seq<char> {
    if n >= 100 {
        seq![digit_char(n / 100), digit_char((n / 10) % 10), digit_char(n % 10)]
    } else if n >= 10 {
        seq![digit_char(n / 10), digit_char(n % 10)]
    } else {
        seq![digit_char(n)]
    }
}

/// The dotted-decimal text of an address: four octet texts joined by dots.
pub open spec fn addr_chars(a: Address) -> Seq<char> {
    octet_chars(a.o1 as int) + seq!['.'] + octet_chars(a.o2 as int) + seq!['.'] + octet_chars(
        a.o3 as int,
    ) + seq!['.'] + octet_chars(a.o4 as int)
}

/// The one-character string for a decimal digit value.
fn digit_str(d: u8) -> (r: &'static str)
    requires
        d < 10,
    ensures
        r@ == seq![digit_char(d as int)],
{
    let r = match d {
        0 => "0",
        1 => "1",
        2 => "2",
        3 => "3",
        4 => "4",
        5 => "5",
        6 => "6",
        7 => "7",
        8 => "8",
        _ => "9",
    };
    proof {
        reveal_strlit("0");
        reveal_strlit("1");
        reveal_strlit("2");
        reveal_strlit("3");
        reveal_strlit("4");
        reveal_strlit("5");
        reveal_strlit("6");
        reveal_strlit("7");
        reveal_strlit("8");
        reveal_strlit("9");
        assert(r@ =~= seq![digit_char(d as int)]);
    }
    r
}

/// Appends the shortest decimal text of `n` to `s`.
fn append_octet(s: &mut String, n: u8)
    ensures
        final(s)@ == old(s)@ + octet_chars(n as int),
{
    if n >= 100 {
        s.append(digit_str(n / 100));
        s.append(digit_str((n / 10) % 10));
        s.append(digit_str(n % 10));
    } else if n >= 10 {
        s.append(digit_str(n / 10));
        s.append(digit_str(n % 10));
    } else {
        s.append(digit_str(n));
    }
    proof {
        assert(s@ =~= old(s)@ + octet_chars(n as int));
    }
}

/// The text is not a dotted-decimal IPv4 address.
#[derive(Clone, Copy, Debug, PartialEq, Eq, Structural)]
pub struct AddressParseError;

/// Whether `c` is a decimal digit.
pub open spec fn is_digit_char(c: char) -> bool {
    48 <= c as u32 <= 57
}

/// The value of a decimal digit character.
pub open spec fn digit_val(c: char) -> int {
    c as u32 - 48
}

/// Whether every character of `s` is a decimal digit.
pub open spec fn all_digits(s: Seq<char>) -> bool {
    forall|i: int| 0 <= i < s.len() ==> is_digit_char(#[trigger] s[i])
}

/// The value of a string of decimal digits, most significant first.
pub open spec fn digits_val(s: Seq<char>) -> int
    decreases s.len(),
{
    if s.len() == 0 {
        0
    } else {
        digits_val(s.drop_last()) * 10 + digit_val(s.last())
    }
}

/// Whether `s` is the text of one octet: one to three decimal digits, value
/// at most 255, and no leading zero.
pub open spec fn valid_octet_chars(s: Seq<char>) -> bool {
    &&& 1 <= s.len() <= 3
    &&& all_digits(s)
    &&& digits_val(s) <= 255
    &&& (s.len() > 1 ==> s[0] != '0')
}

/// `s` split at every dot: one more part than there are dots, dots not
/// included in the parts.
pub open spec fn split_dots(s: Seq<char>) -> Seq<Seq<char>>
    decreases s.len(),
{
    if s.len() == 0 {
        seq![Seq::<char>::empty()]
    } else if s[0] == '.' {
        seq![Seq::<char>::empty()] + split_dots(s.drop_first())
    } else {
        let r = split_dots(s.drop_first());
        seq![seq![s[0]] + r[0]] + r.drop_first()
    }
}

/// How many dots `s` holds.
pub open spec fn count_dots(s: Seq<char>) -> int
    decreases s.len(),
{
    if s.len() == 0 {
        0
    } else {
        (if s[0] == '.' {
            1int
        } else {
            0int
        }) + count_dots(s.drop_first())
    }
}

/// The address `s` denotes, if `s` is four valid octet texts joined by
/// single dots; nothing otherwise.
pub open spec fn spec_parse_ipv4(s: Seq<char>) -> Option<Address> {
    let parts = split_dots(s);
    if parts.len() == 4 && valid_octet_chars(parts[0]) && valid_octet_chars(parts[1])
        && valid_octet_chars(parts[2]) && valid_octet_chars(parts[3]) {
        Option::Some(
            Address {
                o1: digits_val(parts[0]) as u8,
                o2: digits_val(parts[1]) as u8,
                o3: digits_val(parts[2]) as u8,
                o4: digits_val(parts[3]) as u8,
            },
        )
    } else {
        Option::None
    }
}

/// Splitting yields at least one part.
proof fn lemma_split_dots_nonempty(s: Seq<char>)
    ensures
        split_dots(s).len() >= 1,
    decreases s.len(),
{
    if s.len() != 0 {
        lemma_split_dots_nonempty(s.drop_first());
    }
}

/// Splitting yields exactly one part more than there are dots.
proof fn lemma_split_dots_count(s: Seq<char>)
    ensures
        split_dots(s).len() == count_dots(s) + 1,
    decreases s.len(),
{
    if s.len() != 0 {
        lemma_split_dots_count(s.drop_first());
        lemma_split_dots_nonempty(s.drop_first());
    }
}

/// A dotless string splits into just itself.
proof fn lemma_split_dots_no_dot(s: Seq<char>)
    requires
        forall|i: int| 0 <= i < s.len() ==> #[trigger] s[i] != '.',
    ensures
        split_dots(s) =~~= seq![s],
    decreases s.len(),
{
    if s.len() != 0 {
        lemma_split_dots_no_dot(s.drop_first());
        assert(seq![s[0]] + s.drop_first() =~= s);
    }
}

/// Splitting after a dotless prefix and a dot: the prefix is the first
/// part, the rest splits on its own.
proof fn lemma_split_dots_prefix(a: Seq<char>, b: Seq<char>)
    requires
        forall|i: int| 0 <= i < a.len() ==> #[trigger] a[i] != '.',
    ensures
        split_dots(a + seq!['.'] + b) =~~= seq![a] + split_dots(b),
    decreases a.len(),
{
    let s = a + seq!['.'] + b;
    if a.len() == 0 {
        assert(s[0] == '.');
        assert(s.drop_first() =~= b);
    } else {
        assert(s[0] == a[0]);
        assert(s[0] != '.');
        assert(s.drop_first() =~= a.drop_first() + seq!['.'] + b);
        lemma_split_dots_prefix(a.drop_first(), b);
        let r = split_dots(s.drop_first());
        lemma_split_dots_nonempty(b);
        assert(r[0] == a.drop_first());
        assert(seq![s[0]] + a.drop_first() =~= a);
        assert(r.drop_first() =~~= split_dots(b));
    }
}

/// The value of a decimal digit character, if it is one.
fn digit_value(c: char) -> (r: Option<u8>)
    ensures
        r matches Option::Some(v) ==> is_digit_char(c) && v == digit_val(c) && v < 10,
        r is None ==> !is_digit_char(c),
{
    let v = c as u32;
    if 48 <= v && v <= 57 {
        Option::Some((v - 48) as u8)
    } else {
        Option::None
    }
}

/// Reads one octet text: its value if `s` is one to three digits with no
/// leading zero and a value at most 255, nothing otherwise.
fn parse_octet(s: &str) -> (r: Option<u8>)
    ensures
        r matches Option::Some(v) ==> valid_octet_chars(s@) && v == digits_val(s@),
        r is None ==> !valid_octet_chars(s@),
{
    let n = s.unicode_len();
    if n == 0 || n > 3 {
        return Option::None;
    }
    if n > 1 && s.get_char(0) == '0' {
        return Option::None;
    }
    let mut val: u32 = 0;
    let mut i: usize = 0;
    while i < n
        invariant
            0 <= i <= n,
            n == s@.len(),
            1 <= n <= 3,
            all_digits(s@.take(i as int)),
            val == digits_val(s@.take(i as int)),
            val < 1000,
        decreases n - i,
    {
        let c = s.get_char(i);
        match digit_value(c) {
            Option::None => {
                return Option::None;
            },
            Option::Some(d) => {
                proof {
                    assert(s@.take(i + 1).drop_last() =~= s@.take(i as int));
                    assert(s@.take(i + 1).last() == s@[i as int]);
                    assert(digits_val(s@.take(i as int)) <= 99) by {
                        lemma_digits_val_bound(s@.take(i as int));
                    }
                }
                val = val * 10 + d as u32;
            },
        }
        i += 1;
    }
    proof {
        assert(s@.take(n as int) =~= s@);
    }
    if val <= 255 {
        Option::Some(val as u8)
    } else {
        Option::None
    }
}

/// A digit string's value is below ten to the power of its length.
proof fn lemma_digits_val_bound(s: Seq<char>)
    requires
        all_digits(s),
    ensures
        0 <= digits_val(s),
        s.len() == 0 ==> digits_val(s) == 0,
        s.len() == 1 ==> digits_val(s) <= 9,
        s.len() == 2 ==> digits_val(s) <= 99,
        s.len() == 3 ==> digits_val(s) <= 999,
    decreases s.len(),
{
    if s.len() != 0 {
        assert(forall|i: int|
            0 <= i < s.drop_last().len() ==> is_digit_char(#[trigger] s.drop_last()[i]));
        lemma_digits_val_bound(s.drop_last());
        assert(is_digit_char(s.last()));
    }
}

/// Reads a dotted-decimal IPv4 address, exactly four octet texts joined by
/// single dots; any other shape is rejected.
pub fn parse_ipv4(s: &str) -> (r: Result<Address, AddressParseError>)
    ensures
        r matches Ok(a) ==> spec_parse_ipv4(s@) == Option::Some(a),
        r is Err <==> spec_parse_ipv4(s@) is None,
{
    let n = s.unicode_len();
    let mut dots: Vec<usize> = Vec::new();
    let mut i: usize = 0;
    proof {
        assert(s@.skip(0) =~= s@);
    }
    while i < n
        invariant
            0 <= i <= n,
            n == s@.len(),
            forall|k: int| 0 <= k < dots@.len() ==> #[trigger] dots@[k] < i,
            forall|k: int| 0 <= k < dots@.len() ==> s@[#[trigger] dots@[k] as int] == '.',
            forall|k1: int, k2: int|
                0 <= k1 < k2 < dots@.len() ==> #[trigger] dots@[k1] < #[trigger] dots@[k2],
            forall|j: int|
                0 <= j < i && s@[j] == '.' ==> exists|k: int|
                    0 <= k < dots@.len() && #[trigger] dots@[k] == j,
            dots@.len() + count_dots(s@.skip(i as int)) == count_dots(s@),
        decreases n - i,
    {
        proof {
            assert(s@.skip(i as int)[0] == s@[i as int]);
            assert(s@.skip(i as int).drop_first() =~= s@.skip(i + 1));
        }
        if s.get_char(i) == '.' {
            let ghost prior = dots@;
            dots.push(i);
            proof {
                assert forall|j: int| 0 <= j < i + 1 && s@[j] == '.' implies exists|k: int|
                    0 <= k < dots@.len() && #[trigger] dots@[k] == j by {
                    if j < i {
                        let k = choose|k: int| 0 <= k < prior.len() && #[trigger] prior[k] == j;
                        assert(dots@[k] == j);
                    } else {
                        assert(dots@[dots@.len() - 1] == j);
                    }
                }
            }
        }
        i += 1;
    }
    proof {
        assert(s@.skip(n as int) =~= Seq::<char>::empty());
        lemma_split_dots_count(s@);
    }
    if dots.len() != 3 {
        return Err(AddressParseError);
    }
    let p1 = dots[0];
    let p2 = dots[1];
    let p3 = dots[2];
    let t1 = s.substring_char(0, p1);
    let t2 = s.substring_char(p1 + 1, p2);
    let t3 = s.substring_char(p2 + 1, p3);
    let t4 = s.substring_char(p3 + 1, n);
    proof {
        lemma_ipv4_split(s@, p1 as int, p2 as int, p3 as int);
    }
    let o1 = parse_octet(t1);
    let o2 = parse_octet(t2);
    let o3 = parse_octet(t3);
    let o4 = parse_octet(t4);
    match (o1, o2, o3, o4) {
        (Option::Some(v1), Option::Some(v2), Option::Some(v3), Option::Some(v4)) => Ok(
            Address { o1: v1, o2: v2, o3: v3, o4: v4 },
        ),
        _ => Err(AddressParseError),
    }
}

/// With dots at exactly `p1 < p2 < p3`, the split is the four stretches
/// between them.
proof fn lemma_ipv4_split(s: Seq<char>, p1: int, p2: int, p3: int)
    requires
        0 <= p1 < p2 < p3 < s.len(),
        s[p1] == '.',
        s[p2] == '.',
        s[p3] == '.',
        forall|j: int| 0 <= j < s.len() && #[trigger] s[j] == '.' ==> j == p1 || j == p2 || j == p3,
    ensures
        split_dots(s) =~~= seq![
            s.subrange(0, p1),
            s.subrange(p1 + 1, p2),
            s.subrange(p2 + 1, p3),
            s.subrange(p3 + 1, s.len() as int),
        ],
{
    let a = s.subrange(0, p1);
    let b = s.subrange(p1 + 1, p2);
    let c = s.subrange(p2 + 1, p3);
    let d = s.subrange(p3 + 1, s.len() as int);
    assert(s =~= a + seq!['.'] + (b + seq!['.'] + (c + seq!['.'] + d)));
    lemma_split_dots_prefix(a, b + seq!['.'] + (c + seq!['.'] + d));
    lemma_split_dots_prefix(b, c + seq!['.'] + d);
    lemma_split_dots_prefix(c, d);
    lemma_split_dots_no_dot(d);
}

/// Formatting an address and parsing the text gives the address back; the
/// dotted-decimal text of an address therefore determines it.
pub proof fn lemma_format_parse_round_trip(a: Address)
    ensures
        spec_parse_ipv4(addr_chars(a)) == Option::Some(a),
{
    let s = addr_chars(a);
    let t1 = octet_chars(a.o1 as int);
    let t2 = octet_chars(a.o2 as int);
    let t3 = octet_chars(a.o3 as int);
    let t4 = octet_chars(a.o4 as int);
    lemma_octet_chars_valid(a.o1 as int);
    lemma_octet_chars_valid(a.o2 as int);
    lemma_octet_chars_valid(a.o3 as int);
    lemma_octet_chars_valid(a.o4 as int);
    assert(s =~= t1 + seq!['.'] + (t2 + seq!['.'] + (t3 + seq!['.'] + t4)));
    lemma_split_dots_prefix(t1, t2 + seq!['.'] + (t3 + seq!['.'] + t4));
    lemma_split_dots_prefix(t2, t3 + seq!['.'] + t4);
    lemma_split_dots_prefix(t3, t4);
    lemma_split_dots_no_dot(t4);
    assert(split_dots(s) =~~= seq![t1, t2, t3, t4]);
}

/// A digit's character has that digit's value, is a digit, and is not a
/// dot; a nonzero digit's character is not `'0'`.
proof fn lemma_digit_char_facts()
    ensures
        forall|d: int|
            0 <= d < 10 ==> digit_val(#[trigger] digit_char(d)) == d && is_digit_char(
                digit_char(d),
            ) && digit_char(d) != '.' && (d > 0 ==> digit_char(d) != '0'),
{
}

/// An octet's shortest decimal text is a valid octet text and reads back
/// as the octet's value.
proof fn lemma_octet_chars_valid(n: int)
    requires
        0 <= n <= 255,
    ensures
        valid_octet_chars(octet_chars(n)),
        digits_val(octet_chars(n)) == n,
        forall|i: int|
            0 <= i < octet_chars(n).len() ==> #[trigger] octet_chars(n)[i] != '.',
{
    lemma_digit_char_facts();
    assert(0 <= n / 100 <= 2);
    assert(0 <= (n / 10) % 10 <= 9);
    assert(0 <= n % 10 <= 9);
    assert(0 <= n / 10 <= 25);
    let t = octet_chars(n);
    assert(digits_val(Seq::<char>::empty()) == 0);
    if n >= 100 {
        let c1 = digit_char(n / 100);
        let c2 = digit_char((n / 10) % 10);
        let c3 = digit_char(n % 10);
        let s1 = seq![c1];
        let s2 = seq![c1, c2];
        assert(t =~= seq![c1, c2, c3]);
        assert(s1.drop_last() =~= Seq::<char>::empty());
        assert(s2.drop_last() =~= s1);
        assert(t.drop_last() =~= s2);
        assert(digits_val(s1) == digit_val(c1));
        assert(digits_val(s2) == digit_val(c1) * 10 + digit_val(c2));
        assert(digits_val(t) == digits_val(s2) * 10 + digit_val(c3));
        assert(n == (n / 100) * 100 + ((n / 10) % 10) * 10 + n % 10) by (nonlinear_arith)
            requires
                0 <= n <= 255,
        ;
        assert(digits_val(t) == n);
        assert(n / 100 >= 1);
        assert(t[0] == c1 && t[0] != '0');
        assert(all_digits(t));
    } else if n >= 10 {
        let c1 = digit_char(n / 10);
        let c2 = digit_char(n % 10);
        let s1 = seq![c1];
        assert(t =~= seq![c1, c2]);
        assert(s1.drop_last() =~= Seq::<char>::empty());
        assert(t.drop_last() =~= s1);
        assert(digits_val(s1) == digit_val(c1));
        assert(digits_val(t) == digits_val(s1) * 10 + digit_val(c2));
        assert(n == (n / 10) * 10 + n % 10) by (nonlinear_arith)
            requires
                0 <= n <= 255,
        ;
        assert(digits_val(t) == n);
        assert(n / 10 >= 1);
        assert(t[0] == c1 && t[0] != '0');
        assert(all_digits(t));
    } else {
        assert(t =~= seq![digit_char(n)]);
        assert(t.drop_last() =~= Seq::<char>::empty());
        assert(digits_val(t) == digit_val(digit_char(n)));
        assert(all_digits(t));
    }
}

} // verus!
