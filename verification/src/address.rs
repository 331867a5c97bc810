//! Bluetooth device addresses: their octets, their text form and the integer
//! by which the tables of this crate find them again.
use vstd::prelude::*;

verus! {

/// A Bluetooth device address. `octets[0]` is the most significant octet, the
/// one that is written first.
#[derive(Clone, Copy)]
pub struct Address {
    pub octets: [u8; 6],
}

/// The value of a hexadecimal digit of either case.
pub open spec fn hex_digit(c: char) -> Option<int> {
    if '0' as int <= c as int <= '9' as int {
        Some(c as int - '0' as int)
    } else if 'a' as int <= c as int <= 'f' as int {
        Some(c as int - 'a' as int + 10)
    } else if 'A' as int <= c as int <= 'F' as int {
        Some(c as int - 'A' as int + 10)
    } else {
        None
    }
}

/// The number that `s` writes in hexadecimal digits; the empty text writes 0.
pub open spec fn hex_number(s: Seq<char>) -> Option<int>
    decreases s.len(),
{
    if s.len() == 0 {
        Some(0)
    } else {
        match (hex_number(s.drop_last()), hex_digit(s.last())) {
            (Some(n), Some(d)) => Some(16 * n + d),
            _ => None,
        }
    }
}

/// `s` without one leading plus sign.
pub open spec fn unsigned_digits(s: Seq<char>) -> Seq<char> {
    if s.len() > 0 && s[0] == '+' {
        s.subrange(1, s.len() as int)
    } else {
        s
    }
}

/// The octet that one field of an address writes: at least one hexadecimal
/// digit, after an optional plus sign, and a number below 256.
pub open spec fn octet_field(s: Seq<char>) -> Option<u8> {
    let digits = unsigned_digits(s);
    match hex_number(digits) {
        Some(n) if digits.len() > 0 && n < 256 => Some(n as u8),
        _ => None,
    }
}

/// The fields of `s` between its colons. There is one more than there are colons.
pub open spec fn colon_fields(s: Seq<char>) -> Seq<Seq<char>>
    decreases s.len(),
{
    if s.len() == 0 {
        seq![Seq::<char>::empty()]
    } else {
        let before = colon_fields(s.drop_last());
        if s.last() == ':' {
            before.push(Seq::<char>::empty())
        } else {
            before.drop_last().push(before.last().push(s.last()))
        }
    }
}

/// The octets that a colon-separated text writes, if each field writes one.
pub open spec fn written_octets(s: Seq<char>) -> Option<Seq<u8>> {
    let fields = colon_fields(s);
    if forall|i: int| 0 <= i < fields.len() ==> octet_field(#[trigger] fields[i]) is Some {
        Some(fields.map_values(|f: Seq<char>| octet_field(f).unwrap()))
    } else {
        None
    }
}

/// The upper-case hexadecimal digit of `n`.
pub open spec fn upper_digit(n: int) -> char {
    if n < 10 {
        ('0' as int + n) as char
    } else {
        ('A' as int + n - 10) as char
    }
}

/// An octet as two upper-case hexadecimal digits.
pub open spec fn octet_text(octet: u8) -> Seq<char> {
    seq![upper_digit(octet as int / 16), upper_digit(octet as int % 16)]
}

/// Octets as upper-case hexadecimal pairs with a colon between two of them.
pub open spec fn octets_text(octets: Seq<u8>) -> Seq<char>
    decreases octets.len(),
{
    if octets.len() == 0 {
        Seq::empty()
    } else if octets.len() == 1 {
        octet_text(octets[0])
    } else {
        octets_text(octets.drop_last()) + seq![':'] + octet_text(octets.last())
    }
}

/// The 48-bit integer whose digits in base 256 are the six octets.
pub open spec fn address_code(octets: Seq<u8>) -> int {
    octets[0] * 0x100_0000_0000 + octets[1] * 0x1_0000_0000 + octets[2] * 0x100_0000 + octets[3]
        * 0x1_0000 + octets[4] * 0x100 + octets[5]
}

impl Address {
    /// The integer that stands for this address in the tables.
    pub open spec fn spec_code(self) -> u64 {
        address_code(self.octets@) as u64
    }

    /// The integer that stands for this address in the tables.
    pub fn code(&self) -> (r: u64)
        ensures
            r == self.spec_code(),
            r as int == address_code(self.octets@),
            r as int == 0x100_0000_0000 * self.octets@[0] + 0x1_0000_0000 * self.octets@[1]
                + 0x100_0000 * self.octets@[2] + 0x1_0000 * self.octets@[3] + 0x100
                * self.octets@[4] + self.octets@[5],
            r < 0x1_0000_0000_0000,
    {
        let o = self.octets;
        (o[0] as u64) * 0x100_0000_0000 + (o[1] as u64) * 0x1_0000_0000 + (o[2] as u64)
            * 0x100_0000 + (o[3] as u64) * 0x1_0000 + (o[4] as u64) * 0x100 + (o[5] as u64)
    }

    /// The address as it is written: six upper-case hexadecimal pairs with
    /// colons between them.
    pub fn to_text(&self) -> (text: String)
        ensures
            text@ == octets_text(self.octets@),
            text@.len() == 17,
            forall|i: int|
                #![trigger self.octets@[i]]
                0 <= i < 6 ==> text@[3 * i] == "0123456789ABCDEF"@[self.octets@[i] as int / 16]
                    && text@[3 * i + 1] == "0123456789ABCDEF"@[self.octets@[i] as int % 16],
            text@[2] == ':' && text@[5] == ':' && text@[8] == ':' && text@[11] == ':' && text@[14]
                == ':',
    {
        let mut text = String::new();
        let mut i: usize = 0;
        while i < 6
            invariant
                i <= 6,
                text@ == octets_text(self.octets@.take(i as int)),
            decreases 6 - i,
        {
            let octet: u8 = self.octets[i];
            proof {
                reveal_strlit(":");
                assert(self.octets@.take(i + 1).drop_last() =~= self.octets@.take(i as int));
            }
            if i > 0 {
                text.append(":");
            }
            text.append(upper_digit_text(octet / 16));
            text.append(upper_digit_text(octet % 16));
            assert(text@ =~= octets_text(self.octets@.take(i + 1)));
            i = i + 1;
        }
        assert(self.octets@.take(6) =~= self.octets@);
        proof {
            octets_are_written_in_pairs(self.octets@);
            assert forall|i: int| 0 <= i < 5 implies #[trigger] text@[3 * i + 2] == ':' by {
                assert(self.octets@[i] <= 255);
            }
            assert(text@[3 * 0int + 2] == ':' && text@[3 * 1int + 2] == ':' && text@[3 * 2int + 2]
                == ':' && text@[3 * 3int + 2] == ':' && text@[3 * 4int + 2] == ':');
        }
        text
    }

    /// Reads an address from its text: exactly six fields that each write an octet.
    pub fn from_text(text: &str) -> (r: Option<Address>)
        ensures
            match r {
                Some(address) => written_octets(text@) == Some(address.octets@),
                None => match written_octets(text@) {
                    Some(octets) => octets.len() != 6,
                    None => true,
                },
            },
    {
        match read_octets(text) {
            None => None,
            Some(o) => {
                if o.len() == 6 {
                    let octets: [u8; 6] = [o[0], o[1], o[2], o[3], o[4], o[5]];
                    assert(octets@ =~= o@);
                    Some(Address { octets })
                } else {
                    None
                }
            },
        }
    }
}

/// The hexadecimal digits and their values: ten decimal ones, then six letters
/// of either case. No other character is one.
pub proof fn hexadecimal_digits_are_these(c: char)
    ensures
        forall|i: int| 0 <= i < 10 ==> hex_digit(#[trigger] "0123456789"@[i]) == Some(i),
        forall|i: int| 0 <= i < 6 ==> hex_digit(#[trigger] "abcdef"@[i]) == Some(10 + i),
        forall|i: int| 0 <= i < 6 ==> hex_digit(#[trigger] "ABCDEF"@[i]) == Some(10 + i),
        hex_digit(c) is Some <==> "0123456789"@.contains(c) || "abcdef"@.contains(c)
            || "ABCDEF"@.contains(c),
{
    reveal_strlit("0123456789");
    reveal_strlit("abcdef");
    reveal_strlit("ABCDEF");
    match hex_digit(c) {
        Some(n) => {
            if n < 10 {
                assert("0123456789"@[n] == c);
            } else if c as int >= 'a' as int {
                assert("abcdef"@[n - 10] == c);
            } else {
                assert("ABCDEF"@[n - 10] == c);
            }
        },
        None => {},
    }
}

/// Octets are written as pairs of upper-case hexadecimal digits, high half
/// first, with a colon between two pairs and nowhere else.
pub proof fn octets_are_written_in_pairs(octets: Seq<u8>)
    requires
        octets.len() > 0,
    ensures
        octets_text(octets).len() == 3 * octets.len() - 1,
        forall|i: int|
            #![trigger octets[i]]
            0 <= i < octets.len() ==> {
                &&& octets_text(octets)[3 * i] == "0123456789ABCDEF"@[octets[i] as int / 16]
                &&& octets_text(octets)[3 * i + 1] == "0123456789ABCDEF"@[octets[i] as int % 16]
                &&& i < octets.len() - 1 ==> octets_text(octets)[3 * i + 2] == ':'
            },
    decreases octets.len(),
{
    reveal_strlit("0123456789ABCDEF");
    let last = octets.len() - 1;
    if last > 0 {
        let before = octets.drop_last();
        octets_are_written_in_pairs(before);
        let text = octets_text(octets);
        let head = octets_text(before);
        assert(text[head.len() as int] == ':');
        assert forall|i: int|
            #![trigger octets[i]]
            0 <= i < octets.len() implies {
            &&& text[3 * i] == "0123456789ABCDEF"@[octets[i] as int / 16]
            &&& text[3 * i + 1] == "0123456789ABCDEF"@[octets[i] as int % 16]
            &&& i < octets.len() - 1 ==> text[3 * i + 2] == ':'
        } by {
            if i < last {
                assert(before[i] == octets[i]);
                assert(text[3 * i] == head[3 * i]);
                assert(text[3 * i + 1] == head[3 * i + 1]);
                if i < last - 1 {
                    assert(text[3 * i + 2] == head[3 * i + 2]);
                }
            }
        }
    }
}

/// There is always a field, if only an empty one.
proof fn lemma_there_is_a_field(s: Seq<char>)
    ensures
        colon_fields(s).len() > 0,
    decreases s.len(),
{
    if s.len() > 0 {
        lemma_there_is_a_field(s.drop_last());
    }
}

/// A text without a colon is its only field. What follows the first colon of a
/// text is divided as it would be alone.
pub proof fn fields_stand_between_colons(first: Seq<char>, rest: Seq<char>)
    requires
        forall|i: int| 0 <= i < first.len() ==> #[trigger] first[i] != ':',
    ensures
        colon_fields(first) == seq![first],
        colon_fields(first + seq![':'] + rest) == seq![first] + colon_fields(rest),
    decreases first.len(), rest.len(),
{
    if first.len() > 0 {
        let before = first.drop_last();
        assert forall|i: int| 0 <= i < before.len() implies #[trigger] before[i] != ':' by {
            assert(before[i] == first[i]);
        }
        fields_stand_between_colons(before, Seq::empty());
        assert(colon_fields(before) =~= seq![before]);
        assert(first.last() == first[first.len() - 1]);
        assert(before.push(first.last()) =~= first);
        assert(seq![before].drop_last() =~= Seq::<Seq<char>>::empty());
        assert(colon_fields(first) =~= seq![first]);
    } else {
        assert(first =~= Seq::<char>::empty());
        assert(colon_fields(first) =~= seq![first]);
    }
    let whole = first + seq![':'] + rest;
    if rest.len() == 0 {
        assert(whole.drop_last() =~= first);
        assert(rest =~= Seq::<char>::empty());
        assert(colon_fields(whole) =~= seq![first] + colon_fields(rest));
    } else {
        let shorter = rest.drop_last();
        fields_stand_between_colons(first, shorter);
        lemma_there_is_a_field(shorter);
        assert(whole.drop_last() =~= first + seq![':'] + shorter);
        assert(whole.last() == rest.last());
        let fields = colon_fields(shorter);
        assert((seq![first] + fields).drop_last() =~= seq![first] + fields.drop_last());
        assert((seq![first] + fields).last() == fields.last());
        assert(colon_fields(whole) =~= seq![first] + colon_fields(rest));
    }
}

/// A zero in front does not change a number.
proof fn lemma_leading_zero(s: Seq<char>)
    ensures
        hex_number(seq!['0'] + s) == hex_number(s),
    decreases s.len(),
{
    let t = seq!['0'] + s;
    if s.len() == 0 {
        assert(t.drop_last() =~= s);
        assert(t.last() == '0');
        assert(hex_number(s) == Some(0int));
    } else {
        lemma_leading_zero(s.drop_last());
        assert(t.drop_last() =~= seq!['0'] + s.drop_last());
        assert(t.last() == s.last());
    }
}

/// Fields of at most two characters.
proof fn lemma_short_fields(c: char, d: char)
    ensures
        octet_field(Seq::empty()) is None,
        octet_field(seq![c]) is Some <==> hex_digit(c) is Some,
        hex_digit(c) is Some ==> octet_field(seq![c]).unwrap() as int == hex_digit(c).unwrap(),
        c != '+' ==> (octet_field(seq![c, d]) is Some <==> hex_digit(c) is Some && hex_digit(
            d,
        ) is Some),
        hex_digit(c) is Some && hex_digit(d) is Some ==> octet_field(seq![c, d]).unwrap() as int
            == 16 * hex_digit(c).unwrap() + hex_digit(d).unwrap(),
{
    assert(hex_number(Seq::empty()) == Some(0int));
    let one = seq![c];
    assert(one.drop_last() =~= Seq::<char>::empty());
    if c == '+' {
        assert(unsigned_digits(one) =~= Seq::<char>::empty());
    }
    let two = seq![c, d];
    assert(two.drop_last() =~= one);
    assert(two.last() == d);
}

/// Three digits of which the first is no zero write too large a number.
proof fn lemma_three_digits(s: Seq<char>)
    requires
        s.len() >= 3,
        s[0] != '0',
        s[0] != '+',
    ensures
        octet_field(s) is None,
{
    lemma_hex_number_grows(s, 3);
    assert(hex_number(Seq::empty()) == Some(0int));
    let one = s.take(1);
    assert(one.drop_last() =~= Seq::<char>::empty());
    assert(one.last() == s[0]);
    let two = s.take(2);
    assert(two.drop_last() =~= one);
    assert(two.last() == s[1]);
    let three = s.take(3);
    assert(three.drop_last() =~= two);
    assert(three.last() == s[2]);
    assert(unsigned_digits(s) == s);
    if hex_number(s) is Some {
        assert(hex_number(three) is Some);
        assert(hex_number(two) is Some);
        assert(hex_number(one) is Some);
        assert(hex_number(one).unwrap() >= 1);
        assert(hex_number(two).unwrap() >= 16);
        assert(hex_number(three).unwrap() >= 256);
    }
}

/// How a field writes an octet. One digit writes its value; two digits write
/// sixteen times the first and the second. Zeros in front change nothing, nor
/// does one plus sign. Nothing else writes an octet: not the empty field, not a
/// second sign, and not three digits of which the first is no zero.
pub proof fn an_octet_is_written_by_its_digits(c: char, d: char, s: Seq<char>)
    ensures
        octet_field(Seq::empty()) is None,
        octet_field(seq![c]) is Some <==> hex_digit(c) is Some,
        hex_digit(c) is Some ==> octet_field(seq![c]).unwrap() as int == hex_digit(c).unwrap(),
        c != '+' ==> (octet_field(seq![c, d]) is Some <==> hex_digit(c) is Some && hex_digit(
            d,
        ) is Some),
        hex_digit(c) is Some && hex_digit(d) is Some ==> octet_field(seq![c, d]).unwrap() as int
            == 16 * hex_digit(c).unwrap() + hex_digit(d).unwrap(),
        s.len() > 0 && s[0] != '+' ==> octet_field(seq!['0'] + s) == octet_field(s),
        s.len() > 0 && s[0] != '+' ==> octet_field(seq!['+'] + s) == octet_field(s),
        s.len() > 0 && s[0] == '+' ==> octet_field(seq!['+'] + s) is None,
        s.len() >= 3 && s[0] != '0' && s[0] != '+' ==> octet_field(s) is None,
{
    lemma_short_fields(c, d);
    if s.len() > 0 {
        lemma_leading_zero(s);
        let zero = seq!['0'] + s;
        assert(zero[0] == '0');
        assert(unsigned_digits(zero) == zero);
        let plus = seq!['+'] + s;
        assert(plus[0] == '+');
        assert(unsigned_digits(plus) =~= s);
        if s[0] == '+' {
            lemma_hex_number_grows(s, 1);
            assert(s.take(1).last() == '+');
            assert(hex_number(s.take(1)) is None);
        }
    }
    if s.len() >= 3 && s[0] != '0' && s[0] != '+' {
        lemma_three_digits(s);
    }
}

/// A text writes octets exactly if each of its fields writes one, and then
/// these, in their order.
pub proof fn each_field_writes_an_octet(s: Seq<char>)
    ensures
        match written_octets(s) {
            Some(octets) => octets.len() == colon_fields(s).len() && forall|i: int|
                0 <= i < octets.len() ==> octet_field(colon_fields(s)[i]) == Some(
                    #[trigger] octets[i],
                ),
            None => exists|i: int|
                0 <= i < colon_fields(s).len() && octet_field(
                    #[trigger] colon_fields(s)[i],
                ) is None,
        },
{
}

/// Six pairs of hexadecimal digits of either case with colons between them write
/// the six octets that the pairs write, high half first.
pub proof fn six_pairs_are_read(s: Seq<char>)
    requires
        s.len() == 17,
        forall|i: int|
            0 <= i < 17 ==> if i % 3 == 2 {
                #[trigger] s[i] == ':'
            } else {
                hex_digit(s[i]) is Some
            },
    ensures
        written_octets(s) is Some,
        written_octets(s).unwrap().len() == 6,
        forall|i: int|
            0 <= i < 6 ==> (#[trigger] written_octets(s).unwrap()[i]) as int == 16 * hex_digit(
                s[3 * i],
            ).unwrap() + hex_digit(s[3 * i + 1]).unwrap(),
{
    assert forall|i: int| 0 <= i < 6 implies {
        &&& #[trigger] colon_fields(s.skip(3 * i))[0] == seq![s[3 * i], s[3 * i + 1]]
        &&& i < 5 ==> colon_fields(s.skip(3 * i)) == seq![seq![s[3 * i], s[3 * i + 1]]]
            + colon_fields(s.skip(3 * i + 3))
        &&& i == 5 ==> colon_fields(s.skip(3 * i)) == seq![seq![s[3 * i], s[3 * i + 1]]]
    } by {
        let pair = seq![s[3 * i], s[3 * i + 1]];
        assert(s[3 * i] != ':' && s[3 * i + 1] != ':');
        if i < 5 {
            fields_stand_between_colons(pair, s.skip(3 * i + 3));
            assert(s[3 * i + 2] == ':');
            assert(s.skip(3 * i) =~= pair + seq![':'] + s.skip(3 * i + 3));
        } else {
            fields_stand_between_colons(pair, Seq::empty());
            assert(s.skip(3 * i) =~= pair);
        }
    }
    assert(s.skip(0) =~= s);
    let fields = colon_fields(s);
    assert(colon_fields(s.skip(3 * 0int))[0] == fields[0]);
    assert(colon_fields(s.skip(3 * 1int))[0] == fields[1]);
    assert(colon_fields(s.skip(3 * 2int))[0] == fields[2]);
    assert(colon_fields(s.skip(3 * 3int))[0] == fields[3]);
    assert(colon_fields(s.skip(3 * 4int))[0] == fields[4]);
    assert(colon_fields(s.skip(3 * 5int))[0] == fields[5]);
    assert(fields.len() == 6);
    assert forall|i: int| 0 <= i < 6 implies octet_field(#[trigger] fields[i]) is Some
        && octet_field(fields[i]).unwrap() as int == 16 * hex_digit(s[3 * i]).unwrap() + hex_digit(
        s[3 * i + 1],
    ).unwrap() by {
        assert(fields[i] == colon_fields(s.skip(3 * i))[0]);
        assert(s[3 * i] != ':' && s[3 * i + 1] != ':');
        an_octet_is_written_by_its_digits(s[3 * i], s[3 * i + 1], Seq::empty());
    }
}

/// Two addresses have the same code only if they have the same octets.
pub proof fn address_codes_are_distinct(a: Address, b: Address)
    ensures
        a.spec_code() == b.spec_code() <==> a.octets@ == b.octets@,
{
    if a.spec_code() == b.spec_code() {
        assert(address_code(a.octets@) == address_code(b.octets@));
        assert(a.octets@[0] == b.octets@[0]);
        assert(a.octets@[1] == b.octets@[1]);
        assert(a.octets@[2] == b.octets@[2]);
        assert(a.octets@[3] == b.octets@[3]);
        assert(a.octets@[4] == b.octets@[4]);
        assert(a.octets@ =~= b.octets@);
    }
}

/// An octet's text is read back as that octet.
proof fn lemma_octet_text_reads_back(octet: u8)
    ensures
        octet_field(octet_text(octet)) == Some(octet),
        octet_text(octet)[0] != ':',
        octet_text(octet)[1] != ':',
{
    let s = octet_text(octet);
    reveal_with_fuel(hex_number, 3);
    assert(s.drop_last().drop_last() =~= Seq::<char>::empty());
    assert(s.drop_last().last() == s[0]);
    assert(unsigned_digits(s) == s);
}

/// The fields of written octets are the texts of the octets.
proof fn lemma_fields_of_octets_text(octets: Seq<u8>)
    requires
        octets.len() > 0,
    ensures
        colon_fields(octets_text(octets)) =~= octets.map_values(|o: u8| octet_text(o)),
    decreases octets.len(),
{
    let last = octet_text(octets.last());
    lemma_octet_text_reads_back(octets.last());
    let head = if octets.len() == 1 {
        Seq::<char>::empty()
    } else {
        octets_text(octets.drop_last()).push(':')
    };
    let s = octets_text(octets);
    assert(s =~= head.push(last[0]).push(last[1]));
    if octets.len() > 1 {
        lemma_fields_of_octets_text(octets.drop_last());
        assert(head.drop_last() =~= octets_text(octets.drop_last()));
    }
    assert(s.drop_last() =~= head.push(last[0]));
    assert(s.drop_last().drop_last() =~= head);
    let before = colon_fields(head);
    assert(before.last() =~= Seq::<char>::empty());
    let one = colon_fields(s.drop_last());
    assert(one =~= before.drop_last().push(seq![last[0]]));
    assert(colon_fields(s) =~= before.drop_last().push(seq![last[0]].push(last[1])));
    assert(seq![last[0]].push(last[1]) =~= last);
}

/// What is written of octets is read back as those octets, whatever their number.
pub proof fn written_text_reads_back(octets: Seq<u8>)
    requires
        octets.len() > 0,
    ensures
        written_octets(octets_text(octets)) == Some(octets),
{
    lemma_fields_of_octets_text(octets);
    let fields = colon_fields(octets_text(octets));
    assert forall|i: int| 0 <= i < fields.len() implies octet_field(#[trigger] fields[i]) == Some(
        octets[i],
    ) by {
        lemma_octet_text_reads_back(octets[i]);
    }
    assert(fields.map_values(|f: Seq<char>| octet_field(f).unwrap()) =~= octets);
}

/// The upper-case hexadecimal digit of `n` as a text.
fn upper_digit_text(n: u8) -> (r: &'static str)
    requires
        n < 16,
    ensures
        r@ == seq![upper_digit(n as int)],
{
    proof {
        reveal_strlit("0");
        reveal_strlit("1");
        reveal_strlit("2");
        reveal_strlit("3");
        reveal_strlit("4");
        reveal_strlit("5");
        reveal_strlit("6");
        reveal_strlit("7");
        reveal_strlit("8");
        reveal_strlit("9");
        reveal_strlit("A");
        reveal_strlit("B");
        reveal_strlit("C");
        reveal_strlit("D");
        reveal_strlit("E");
        reveal_strlit("F");
    }
    let digit = match n {
        0 => "0",
        1 => "1",
        2 => "2",
        3 => "3",
        4 => "4",
        5 => "5",
        6 => "6",
        7 => "7",
        8 => "8",
        9 => "9",
        10 => "A",
        11 => "B",
        12 => "C",
        13 => "D",
        14 => "E",
        _ => "F",
    };
    assert(digit@ =~= seq![upper_digit(n as int)]);
    digit
}

fn hex_digit_value(c: char) -> (r: Option<u32>)
    ensures
        r is Some == hex_digit(c) is Some,
        r matches Some(d) ==> d as int == hex_digit(c).unwrap() && d < 16,
{
    let code: u32 = c as u32;
    if 0x30 <= code && code <= 0x39 {
        Some(code - 0x30)
    } else if 0x61 <= code && code <= 0x66 {
        Some(code - 0x61 + 10)
    } else if 0x41 <= code && code <= 0x46 {
        Some(code - 0x41 + 10)
    } else {
        None
    }
}

/// A text that is not a number keeps being none when characters follow, and a
/// number does not become smaller.
proof fn lemma_hex_number_grows(s: Seq<char>, i: int)
    requires
        0 <= i <= s.len(),
    ensures
        hex_number(s) matches Some(n) ==> hex_number(s.take(i)) is Some && 0 <= hex_number(
            s.take(i),
        ).unwrap() <= n,
    decreases s.len(),
{
    if i == s.len() {
        assert(s.take(i) =~= s);
        if s.len() > 0 {
            lemma_hex_number_grows(s.drop_last(), s.len() - 1);
        }
    } else {
        lemma_hex_number_grows(s.drop_last(), i);
        assert(s.drop_last().take(i) =~= s.take(i));
    }
}

/// Reads the field `chars[from..to]`.
fn read_octet_field(chars: &Vec<char>, from: usize, to: usize) -> (r: Option<u8>)
    requires
        from <= to <= chars@.len(),
    ensures
        r == octet_field(chars@.subrange(from as int, to as int)),
{
    let ghost field = chars@.subrange(from as int, to as int);
    let mut start: usize = from;
    if from < to && chars[from] == '+' {
        start = from + 1;
    }
    let ghost digits = chars@.subrange(start as int, to as int);
    assert(digits =~= unsigned_digits(field));
    if start == to {
        return None;
    }
    let mut n: u32 = 0;
    let mut i: usize = start;
    while i < to
        invariant
            from <= start <= i <= to <= chars@.len(),
            field == chars@.subrange(from as int, to as int),
            digits == chars@.subrange(start as int, to as int),
            digits == unsigned_digits(field),
            digits.len() > 0,
            n < 256,
            hex_number(digits.take(i - start)) == Some(n as int),
        decreases to - i,
    {
        proof {
            lemma_hex_number_grows(digits, i - start + 1);
            assert(digits.take(i - start + 1).drop_last() =~= digits.take(i - start));
            assert(digits.take(i - start + 1).last() == chars@[i as int]);
        }
        match hex_digit_value(chars[i]) {
            None => {
                return None;
            },
            Some(d) => {
                n = 16 * n + d;
                if n >= 256 {
                    return None;
                }
            },
        }
        i = i + 1;
    }
    assert(digits.take(to - start) =~= digits);
    Some(n as u8)
}

/// The characters of `text`.
fn characters(text: &str) -> (chars: Vec<char>)
    ensures
        chars@ == text@,
{
    let mut chars: Vec<char> = Vec::new();
    let n: usize = text.unicode_len();
    let mut i: usize = 0;
    while i < n
        invariant
            i <= n,
            n == text@.len(),
            chars@ == text@.take(i as int),
        decreases n - i,
    {
        chars.push(text.get_char(i));
        i = i + 1;
        assert(chars@ =~= text@.take(i as int));
    }
    assert(text@.take(n as int) =~= text@);
    chars
}

/// Reads a colon-separated text of octets, of whatever number.
pub fn read_octets(text: &str) -> (r: Option<Vec<u8>>)
    ensures
        match r {
            Some(octets) => written_octets(text@) == Some(octets@),
            None => written_octets(text@) is None,
        },
{
    let chars = characters(text);
    let n: usize = chars.len();
    let mut read: Vec<Option<u8>> = Vec::new();
    let mut from: usize = 0;
    let mut i: usize = 0;
    let ghost mut done: Seq<Seq<char>> = Seq::empty();
    assert(chars@.subrange(0, 0) =~= Seq::<char>::empty());
    assert(chars@.take(0) =~= Seq::<char>::empty());
    while i < n
        invariant
            from <= i <= n,
            n == chars@.len(),
            colon_fields(chars@.take(i as int)) == done.push(
                chars@.subrange(from as int, i as int),
            ),
            read@.len() == done.len(),
            forall|k: int| 0 <= k < done.len() ==> read@[k] == octet_field(#[trigger] done[k]),
        decreases n - i,
    {
        let ghost field = chars@.subrange(from as int, i as int);
        assert(chars@.take(i + 1).drop_last() =~= chars@.take(i as int));
        assert(done.push(field).drop_last() =~= done);
        if chars[i] == ':' {
            read.push(read_octet_field(&chars, from, i));
            proof {
                done = done.push(field);
            }
            from = i + 1;
            assert(chars@.subrange(i + 1, i + 1) =~= Seq::<char>::empty());
        } else {
            assert(field.push(chars@[i as int]) =~= chars@.subrange(from as int, i + 1));
        }
        i = i + 1;
    }
    read.push(read_octet_field(&chars, from, n));
    proof {
        done = done.push(chars@.subrange(from as int, n as int));
        assert(chars@.take(n as int) =~= chars@);
    }
    let mut octets: Vec<u8> = Vec::new();
    let mut k: usize = 0;
    while k < read.len()
        invariant
            k <= read@.len(),
            read@.len() == done.len(),
            done == colon_fields(text@),
            forall|j: int| 0 <= j < done.len() ==> read@[j] == octet_field(#[trigger] done[j]),
            octets@.len() == k,
            forall|j: int|
                0 <= j < k ==> octet_field(#[trigger] done[j]) == Some(octets@[j]),
        decreases read@.len() - k,
    {
        assert(read@[k as int] == octet_field(done[k as int]));
        match read[k] {
            None => {
                return None;
            },
            Some(octet) => {
                octets.push(octet);
            },
        }
        k = k + 1;
    }
    assert(octets@ =~= done.map_values(|f: Seq<char>| octet_field(f).unwrap()));
    Some(octets)
}

} // verus!
