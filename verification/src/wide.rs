//! UTF-16 text as the COM interfaces pass it: NUL-terminated strings, the
//! fixed 128-unit name fields of pin and filter information, and names
//! read back from them.
use vstd::prelude::*;

use crate::text::{chars_of, push_char};

verus! {

/// The UTF-16 code units of one character.
pub open spec fn utf16_units(c: char) -> Seq<u16> {
    let v = c as u32;
    if v < 0x10000 {
        seq![v as u16]
    } else {
        let w = (v - 0x10000) as int;
        seq![(0xD800 + w / 0x400) as u16, (0xDC00 + w % 0x400) as u16]
    }
}

/// The UTF-16 code units of a text (`str::encode_utf16`).
pub open spec fn utf16(s: Seq<char>) -> Seq<u16>
    decreases s.len(),
{
    if s.len() == 0 {
        Seq::empty()
    } else {
        utf16(s.drop_last()) + utf16_units(s.last())
    }
}

/// The UTF-16 code units of a text.
pub fn encode_utf16(s: &str) -> (r: Vec<u16>)
    ensures
        r@ == utf16(s@),
{
    let v = chars_of(s);
    let mut out: Vec<u16> = Vec::new();
    let mut i: usize = 0;
    while i < v.len()
        invariant
            i <= v@.len(),
            out@ == utf16(v@.take(i as int)),
        decreases v.len() - i,
    {
        let c = v[i];
        let u = c as u32;
        assert(v@.take(i + 1).drop_last() =~= v@.take(i as int));
        if u < 0x10000 {
            out.push(u as u16);
        } else {
            let w = u - 0x10000;
            out.push((0xD800 + w / 0x400) as u16);
            out.push((0xDC00 + w % 0x400) as u16);
        }
        i += 1;
        assert(out@ =~= utf16(v@.take(i as int)));
    }
    assert(v@.take(i as int) =~= v@);
    out
}

/// A NUL-terminated UTF-16 string.
pub fn to_wide(s: &str) -> (r: Vec<u16>)
    ensures
        r@ == utf16(s@).push(0),
{
    let mut r = encode_utf16(s);
    r.push(0);
    r
}

/// The 128 units of a name field: at most 127 units of the name, then
/// zeros.
pub open spec fn name_field(name: Seq<char>) -> Seq<u16> {
    let u = utf16(name);
    let n = if u.len() <= 127 {
        u.len() as int
    } else {
        127
    };
    u.take(n) + Seq::new((128 - n) as nat, |i: int| 0u16)
}

/// A name field (`achName`) holding `name`, cut to 127 units.
pub fn name_field_of(name: &str) -> (r: Vec<u16>)
    ensures
        r@ == name_field(name@),
        r@.len() == 128,
{
    let u = encode_utf16(name);
    let n: usize = if u.len() <= 127 {
        u.len()
    } else {
        127
    };
    let mut out: Vec<u16> = Vec::new();
    let mut i: usize = 0;
    while i < n
        invariant
            i <= n <= u@.len(),
            n <= 127,
            out@ == u@.take(i as int),
        decreases n - i,
    {
        out.push(u[i]);
        i += 1;
        assert(out@ =~= u@.take(i as int));
    }
    while i < 128
        invariant
            n <= i <= 128,
            out@ == u@.take(n as int) + Seq::new((i - n) as nat, |k: int| 0u16),
        decreases 128 - i,
    {
        out.push(0u16);
        i += 1;
        assert(out@ =~= u@.take(n as int) + Seq::new((i - n) as nat, |k: int| 0u16));
    }
    out
}

/// Whether a value is a Unicode scalar value.
pub open spec fn is_scalar(v: u32) -> bool {
    v <= 0xD7FF || (0xE000 <= v && v <= 0x10FFFF)
}

/// `char::from_u32`: the character with this scalar value, if it is one.
#[verifier::external_body]
fn char_from_u32(v: u32) -> (r: Option<char>)
    ensures
        r == (if is_scalar(v) {
            Some(v as char)
        } else {
            None
        }),
{
    char::from_u32(v)
}

/// The character a single UTF-16 unit is read as: itself, or `?` for half
/// of a surrogate pair.
pub open spec fn unit_char(u: u16) -> char {
    if is_scalar(u as u32) {
        (u as u32) as char
    } else {
        '?'
    }
}

/// The units before the first NUL.
pub open spec fn before_nul(units: Seq<u16>) -> Seq<u16>
    decreases units.len(),
{
    if units.len() == 0 {
        units
    } else if units[0] == 0 {
        Seq::empty()
    } else {
        seq![units[0]] + before_nul(units.drop_first())
    }
}

/// A name read unit by unit up to its NUL, as the filter logs and matches
/// pin ids.
pub open spec fn read_name(units: Seq<u16>) -> Seq<char> {
    before_nul(units).map_values(|u: u16| unit_char(u))
}

proof fn lemma_before_nul_step(units: Seq<u16>, i: int)
    requires
        0 <= i < units.len(),
        forall|j: int| 0 <= j <= i ==> units[j] != 0,
    ensures
        before_nul(units) == units.take(i + 1) + before_nul(units.skip(i + 1)),
    decreases i,
{
    if i == 0 {
        assert(units.skip(1) =~= units.drop_first());
        assert(units.take(1) =~= seq![units[0]]);
    } else {
        let t = units.drop_first();
        lemma_before_nul_step(t, i - 1);
        assert(t.skip(i) =~= units.skip(i + 1));
        assert(seq![units[0]] + t.take(i) =~= units.take(i + 1));
    }
}

/// Reads a name from UTF-16 units up to the first NUL (or the end).
pub fn name_from_units(units: &[u16]) -> (r: String)
    ensures
        r@ == read_name(units@),
{
    let mut s = String::new();
    let mut i: usize = 0;
    assert(units@.skip(0) =~= units@);
    while i < units.len() && units[i] != 0
        invariant
            i <= units@.len(),
            forall|j: int| 0 <= j < i ==> units@[j] != 0,
            before_nul(units@) == units@.take(i as int) + before_nul(units@.skip(i as int)),
            s@ == units@.take(i as int).map_values(|u: u16| unit_char(u)),
        decreases units.len() - i,
    {
        proof {
            lemma_before_nul_step(units@, i as int);
        }
        let c = match char_from_u32(units[i] as u32) {
            Some(c) => c,
            None => '?',
        };
        push_char(&mut s, c);
        i += 1;
        assert(s@ =~= units@.take(i as int).map_values(|u: u16| unit_char(u)));
    }
    assert(before_nul(units@.skip(i as int)) =~= Seq::<u16>::empty());
    assert(before_nul(units@) =~= units@.take(i as int));
    s
}

proof fn lemma_before_nul_prefix(u: Seq<u16>, v: Seq<u16>)
    requires
        forall|i: int| 0 <= i < u.len() ==> #[trigger] u[i] != 0,
    ensures
        before_nul(u + v) == u + before_nul(v),
    decreases u.len(),
{
    if u.len() == 0 {
        assert(u + v =~= v);
        assert(u + before_nul(v) =~= before_nul(v));
    } else {
        assert((u + v)[0] == u[0]);
        assert((u + v).drop_first() =~= u.drop_first() + v);
        lemma_before_nul_prefix(u.drop_first(), v);
        assert(seq![u[0]] + (u.drop_first() + before_nul(v)) =~= u + before_nul(v));
    }
}

/// Characters of the Basic Multilingual Plane other than NUL.
pub open spec fn plain_bmp(s: Seq<char>) -> bool {
    forall|i: int| 0 <= i < s.len() ==> 0 < (#[trigger] s[i] as u32) < 0x10000
}

proof fn lemma_utf16_bmp(s: Seq<char>)
    requires
        plain_bmp(s),
    ensures
        utf16(s).len() == s.len(),
        forall|i: int| 0 <= i < s.len() ==> #[trigger] utf16(s)[i] == (s[i] as u32) as u16,
    decreases s.len(),
{
    if s.len() > 0 {
        lemma_utf16_bmp(s.drop_last());
        assert forall|i: int| 0 <= i < s.len() implies #[trigger] utf16(s)[i] == (s[i] as u32) as u16 by {
            if i < s.len() - 1 {
                assert(s.drop_last()[i] == s[i]);
            }
        }
    }
}

/// A pin id written as a NUL-terminated UTF-16 string (`QueryId`) is read
/// back unchanged (`FindPin`), for names of Basic Multilingual Plane
/// characters other than NUL.
pub proof fn law_wide_names_read_back(s: Seq<char>)
    requires
        plain_bmp(s),
    ensures
        read_name(utf16(s).push(0)) == s,
{
    lemma_utf16_bmp(s);
    let u = utf16(s);
    assert forall|i: int| 0 <= i < u.len() implies #[trigger] u[i] != 0 by {
        assert(0 < (s[i] as u32) < 0x10000);
    }
    lemma_before_nul_prefix(u, seq![0u16]);
    assert(before_nul(seq![0u16]) =~= Seq::<u16>::empty());
    assert(u.push(0) =~= u + seq![0u16]);
    assert(before_nul(u.push(0)) =~= u);
    assert forall|i: int| 0 <= i < s.len() implies #[trigger] unit_char(u[i]) == s[i] by {
        let x = s[i] as u32;
        assert(0 < x < 0x10000);
        assert(u[i] == x as u16);
        assert((x as u16) as u32 == x) by (bit_vector)
            requires
                x < 0x10000,
        ;
        vstd::utf8::char_is_scalar(s[i]);
        vstd::utf8::char_u32_cast(s[i], x);
        assert(is_scalar(x));
    }
    assert(read_name(u.push(0)) =~= s);
}

} // verus!
