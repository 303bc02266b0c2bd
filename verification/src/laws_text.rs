//! Properties of the text helpers, of dictionary lookup and of the reads
//! that hold of every input.
use vstd::prelude::*;
use crate::attributes::{containing_reading, mentions_any, text_reading, ReadFailure};
use crate::pickle::{key_is, lookup, DictEntry, PickleKey, PickleValue};
use crate::text::{digit_char, has_infix, has_suffix, int_decimal, nat_decimal};

verus! {

/// `hay` ends with `suffix` exactly when it is some text followed by `suffix`.
pub proof fn law_suffix_is_a_tail(hay: Seq<char>, suffix: Seq<char>)
    ensures
        has_suffix(hay, suffix) <==> exists|u: Seq<char>| #[trigger] (u + suffix) == hay,
{
    if has_suffix(hay, suffix) {
        let u = hay.subrange(0, hay.len() - suffix.len());
        assert(u + suffix =~= hay);
    }
    if exists|u: Seq<char>| #[trigger] (u + suffix) == hay {
        let u = choose|u: Seq<char>| #[trigger] (u + suffix) == hay;
        assert(hay.subrange(hay.len() - suffix.len(), hay.len() as int) =~= suffix);
    }
}

/// `needle` occurs in `hay` exactly when `hay` is some text, then `needle`,
/// then some text.
pub proof fn law_infix_is_a_middle(hay: Seq<char>, needle: Seq<char>)
    ensures
        has_infix(hay, needle) <==> exists|u: Seq<char>, w: Seq<char>| #[trigger] (u + needle + w)
            == hay,
{
    if has_infix(hay, needle) {
        let i = choose|i: int|
            0 <= i && i + needle.len() <= hay.len() && #[trigger] hay.subrange(i, i + needle.len())
                == needle;
        let u = hay.subrange(0, i);
        let w = hay.subrange(i + needle.len(), hay.len() as int);
        assert(u + needle + w =~= hay);
    }
    if exists|u: Seq<char>, w: Seq<char>| #[trigger] (u + needle + w) == hay {
        let (u, w) = choose|u: Seq<char>, w: Seq<char>| #[trigger] (u + needle + w) == hay;
        assert(hay.subrange(u.len() as int, (u.len() + needle.len()) as int) =~= needle);
    }
}

/// The value under a text key is that of the first entry with that key;
/// without such an entry there is none.
pub proof fn law_lookup_finds_first(entries: Seq<DictEntry>, name: Seq<char>)
    ensures
        forall|k: int|
            0 <= k < entries.len() && (entries[k].key matches PickleKey::Text(s) && s@ == name)
                && (forall|j: int|
                0 <= j < k ==> !(#[trigger] entries[j].key matches PickleKey::Text(t) && t@ == name))
                ==> lookup(entries, name) == Some(#[trigger] entries[k].value),
        (forall|j: int|
            0 <= j < entries.len() ==> !(#[trigger] entries[j].key matches PickleKey::Text(t) && t@
                == name)) ==> lookup(entries, name) is None,
    decreases entries.len(),
{
    if entries.len() > 0 {
        let rest = entries.drop_first();
        law_lookup_finds_first(rest, name);
        assert forall|k: int|
            0 <= k < entries.len() && (entries[k].key matches PickleKey::Text(s) && s@ == name)
                && (forall|j: int|
                0 <= j < k ==> !(#[trigger] entries[j].key matches PickleKey::Text(t) && t@ == name))
                implies lookup(entries, name) == Some(#[trigger] entries[k].value) by {
            if k > 0 {
                assert(!key_is(entries[0].key, name));
                assert(rest[k - 1] == entries[k]);
                assert forall|j: int| 0 <= j < k - 1 implies !(#[trigger] rest[j].key matches PickleKey::Text(t)
                    && t@ == name) by {
                    assert(rest[j] == entries[j + 1]);
                }
            }
        }
        if forall|j: int|
            0 <= j < entries.len() ==> !(#[trigger] entries[j].key matches PickleKey::Text(t) && t@
                == name) {
            assert(!key_is(entries[0].key, name));
            assert forall|j: int| 0 <= j < rest.len() implies !(#[trigger] rest[j].key matches PickleKey::Text(t)
                && t@ == name) by {
                assert(rest[j] == entries[j + 1]);
            }
        }
    }
}

/// The number that a sequence of decimal digits stands for.
pub open spec fn digits_value(s: Seq<char>) -> int
    decreases s.len(),
{
    if s.len() == 0 {
        0
    } else {
        digits_value(s.drop_last()) * 10 + (s.last() as int - 48)
    }
}

/// Every character is one of `0` to `9`.
pub open spec fn all_digits(s: Seq<char>) -> bool {
    forall|i: int| 0 <= i < s.len() ==> '0' <= #[trigger] s[i] <= '9'
}

/// The decimal text of a natural number is made of digits, does not start
/// with `0` unless it is `0` itself, and stands for that number.
pub proof fn law_decimal_reads_back(n: nat)
    ensures
        all_digits(nat_decimal(n)),
        nat_decimal(n).len() >= 1,
        nat_decimal(n)[0] == '0' ==> n == 0,
        digits_value(nat_decimal(n)) == n,
    decreases n,
{
    if n >= 10 {
        law_decimal_reads_back(n / 10);
        let s = nat_decimal(n / 10);
        let t = nat_decimal(n);
        assert(t == s.push(digit_char((n % 10) as int)));
        assert(t.drop_last() =~= s);
        assert(t[0] == s[0]);
        assert(t.last() == digit_char((n % 10) as int));
        assert(digit_char((n % 10) as int) as int == 48 + (n % 10) as int);
        assert(digits_value(t) == digits_value(s) * 10 + (n % 10) as int);
        assert(n == (n / 10) * 10 + n % 10);
        assert forall|i: int| 0 <= i < t.len() implies '0' <= #[trigger] t[i] <= '9' by {
            if i < s.len() {
                assert(t[i] == s[i]);
            }
        }
    } else {
        assert(nat_decimal(n) =~= seq![digit_char(n as int)]);
        assert(nat_decimal(n).drop_last() =~= Seq::<char>::empty());
        assert(digit_char(n as int) as int == 48 + n);
        assert(digits_value(Seq::<char>::empty()) == 0);
        assert(digits_value(nat_decimal(n)) == digits_value(nat_decimal(n).drop_last()) * 10 + (
        nat_decimal(n).last() as int - 48));
    }
}

/// The decimal text of an integer is that of its magnitude, after a `-`
/// exactly when it is negative.
pub proof fn law_integer_decimal(i: int)
    ensures
        i >= 0 ==> int_decimal(i) == nat_decimal(i as nat),
        i < 0 ==> int_decimal(i) == seq!['-'] + nat_decimal((-i) as nat),
        i >= 0 ==> digits_value(int_decimal(i)) == i,
{
    if i >= 0 {
        law_decimal_reads_back(i as nat);
    }
}

/// The value is of a kind that reads as text.
pub open spec fn reads_as_text(v: PickleValue) -> bool {
    match v {
        PickleValue::Float(_) | PickleValue::I64(_) | PickleValue::Text(_) | PickleValue::Bytes(_)
        | PickleValue::BigInt(_) => true,
        _ => false,
    }
}

/// When no name is the `"!"` marker and none is held with a value that reads
/// as text, `read_string` gives the empty text.
pub proof fn law_absent_text_reads_empty(names: Seq<Seq<char>>, attrs: Seq<DictEntry>)
    requires
        forall|j: int|
            0 <= j < names.len() ==> #[trigger] names[j] != seq!['!'] && !(lookup(attrs, names[j]) matches Some(v)
                && reads_as_text(v)),
    ensures
        text_reading(names, attrs) == Ok::<Seq<char>, ReadFailure>(Seq::empty()),
    decreases names.len(),
{
    if names.len() > 0 {
        assert(names[0] != seq!['!']);
        let rest = names.drop_first();
        assert forall|j: int| 0 <= j < rest.len() implies #[trigger] rest[j] != seq!['!'] && !(lookup(
            attrs,
            rest[j],
        ) matches Some(v) && reads_as_text(v)) by {
            assert(rest[j] == names[j + 1]);
        }
        law_absent_text_reads_empty(rest, attrs);
    }
}

/// When no attribute both has a key whose debug text contains one of the
/// names and a value that reads as text, `read_string_containing` gives the
/// empty text.
pub proof fn law_absent_containing_reads_empty(names: Seq<Seq<char>>, attrs: Seq<DictEntry>)
    requires
        forall|j: int|
            0 <= j < attrs.len() ==> !((exists|n: int|
                0 <= n < names.len() && has_infix((#[trigger] attrs[j]).key_debug@, #[trigger] names[n]))
                && reads_as_text(attrs[j].value)),
    ensures
        containing_reading(names, attrs) == Ok::<Seq<char>, ReadFailure>(Seq::empty()),
    decreases attrs.len(),
{
    if attrs.len() > 0 {
        assert(!(mentions_any(attrs[0].key_debug@, names) && reads_as_text(attrs[0].value)));
        let rest = attrs.drop_first();
        assert forall|j: int| 0 <= j < rest.len() implies !((exists|n: int|
            0 <= n < names.len() && has_infix((#[trigger] rest[j]).key_debug@, #[trigger] names[n]))
            && reads_as_text(rest[j].value)) by {
            assert(rest[j] == attrs[j + 1]);
        }
        law_absent_containing_reads_empty(names, rest);
    }
}

}
