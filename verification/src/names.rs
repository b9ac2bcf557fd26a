//! Lists of capability names: membership, the names a runtime lacks, and the
//! null-terminated form that the native API reads.

use vstd::prelude::*;
use vstd::utf8::{decode_utf8, encode_utf8, valid_utf8};

verus! {

/// The names in a list of strings, each as its sequence of characters.
pub open spec fn name_views(names: Seq<String>) -> Seq<Seq<char>> {
    Seq::new(names.len(), |i: int| names[i]@)
}

/// The predicate that holds of a name which `available` does not offer.
pub open spec fn not_offered(available: Seq<Seq<char>>) -> spec_fn(Seq<char>) -> bool {
    |name: Seq<char>| !available.contains(name)
}

/// The requested names that `available` does not offer, in the order of the
/// request. A name requested twice and not offered appears twice.
pub open spec fn missing_of(requested: Seq<Seq<char>>, available: Seq<Seq<char>>) -> Seq<
    Seq<char>,
> {
    requested.filter(not_offered(available))
}

/// Every requested name is offered.
pub open spec fn all_offered(requested: Seq<Seq<char>>, available: Seq<Seq<char>>) -> bool {
    forall|i: int| 0 <= i < requested.len() ==> available.contains(#[trigger] requested[i])
}

/// Nothing is missing exactly when every requested name is offered.
pub proof fn lemma_missing_empty_iff_all_offered(
    requested: Seq<Seq<char>>,
    available: Seq<Seq<char>>,
)
    ensures
        missing_of(requested, available).len() == 0 <==> all_offered(requested, available),
    decreases requested.len(),
{
    reveal(Seq::filter);
    if requested.len() > 0 {
        let rest = requested.drop_last();
        lemma_missing_empty_iff_all_offered(rest, available);
        if all_offered(requested, available) {
            assert(available.contains(requested[requested.len() - 1]));
            assert forall|i: int| 0 <= i < rest.len() implies available.contains(
                #[trigger] rest[i],
            ) by {
                assert(rest[i] == requested[i]);
            }
        }
        if missing_of(requested, available).len() == 0 {
            assert forall|i: int| 0 <= i < requested.len() implies available.contains(
                #[trigger] requested[i],
            ) by {
                if i < rest.len() {
                    assert(rest[i] == requested[i]);
                }
            }
        }
    }
}

/// A name is missing exactly when it was requested and is not offered.
pub proof fn lemma_missing_members(
    requested: Seq<Seq<char>>,
    available: Seq<Seq<char>>,
    name: Seq<char>,
)
    ensures
        missing_of(requested, available).contains(name) <==> (requested.contains(name)
            && !available.contains(name)),
    decreases requested.len(),
{
    reveal(Seq::filter);
    let missing = missing_of(requested, available);
    if requested.len() > 0 {
        let rest = requested.drop_last();
        let last = requested.last();
        lemma_missing_members(rest, available, name);
        let before = missing_of(rest, available);
        if missing.contains(name) {
            let k = choose|k: int| 0 <= k < missing.len() && missing[k] == name;
            if k < before.len() {
                assert(before[k] == name);
                let j = choose|j: int| 0 <= j < rest.len() && rest[j] == name;
                assert(requested[j] == name);
            } else {
                assert(name == last);
                assert(requested[requested.len() - 1] == name);
            }
        }
        if requested.contains(name) && !available.contains(name) {
            let j = choose|j: int| 0 <= j < requested.len() && requested[j] == name;
            if j < rest.len() {
                assert(rest[j] == name);
                let k = choose|k: int| 0 <= k < before.len() && before[k] == name;
                assert(missing[k] == name);
            } else {
                assert(missing[missing.len() - 1] == name);
            }
        }
    }
}

/// What is missing depends on which names are offered, not on the order or
/// the number of times in which the runtime lists them.
pub proof fn lemma_missing_ignores_order_of_offer(
    requested: Seq<Seq<char>>,
    first: Seq<Seq<char>>,
    second: Seq<Seq<char>>,
)
    requires
        forall|name: Seq<char>| first.contains(name) <==> second.contains(name),
    ensures
        missing_of(requested, first) == missing_of(requested, second),
    decreases requested.len(),
{
    reveal(Seq::filter);
    if requested.len() > 0 {
        lemma_missing_ignores_order_of_offer(requested.drop_last(), first, second);
    }
}

/// The missing names of a request in two parts are those of the first part
/// followed by those of the second.
pub proof fn lemma_missing_of_concatenation(
    head: Seq<Seq<char>>,
    tail: Seq<Seq<char>>,
    available: Seq<Seq<char>>,
)
    ensures
        missing_of(head + tail, available) == missing_of(head, available) + missing_of(
            tail,
            available,
        ),
{
    Seq::filter_distributes_over_add(head, tail, not_offered(available));
}

/// Whether `names` holds `name`.
pub fn contains_name(names: &Vec<String>, name: &String) -> (found: bool)
    ensures
        found == name_views(names@).contains(name@),
{
    let mut i: usize = 0;
    while i < names.len()
        invariant
            i <= names.len(),
            forall|j: int| 0 <= j < i ==> name_views(names@)[j] != name@,
        decreases names.len() - i,
    {
        if names[i] == *name {
            assert(name_views(names@)[i as int] == name@);
            return true;
        }
        i += 1;
    }
    false
}

/// The requested names that `available` does not offer, in request order.
pub fn missing_names(requested: &Vec<String>, available: &Vec<String>) -> (missing: Vec<String>)
    ensures
        name_views(missing@) == missing_of(name_views(requested@), name_views(available@)),
{
    let mut missing: Vec<String> = Vec::new();
    let mut i: usize = 0;
    proof {
        reveal(Seq::filter);
        assert(name_views(requested@).take(0).len() == 0);
        assert(name_views(missing@) =~= missing_of(
            name_views(requested@).take(0),
            name_views(available@),
        ));
    }
    while i < requested.len()
        invariant
            i <= requested.len(),
            name_views(missing@) == missing_of(
                name_views(requested@).take(i as int),
                name_views(available@),
            ),
        decreases requested.len() - i,
    {
        let ghost before = name_views(missing@);
        let ghost wanted = name_views(requested@);
        proof {
            assert(wanted.take(i + 1) =~= wanted.take(i as int).push(requested@[i as int]@));
            wanted.take(i as int).lemma_filter_push(
                requested@[i as int]@,
                not_offered(name_views(available@)),
            );
        }
        if !contains_name(available, &requested[i]) {
            missing.push(requested[i].clone());
            assert(name_views(missing@) =~= before.push(requested@[i as int]@));
        }
        i += 1;
    }
    proof {
        assert(name_views(requested@).take(i as int) =~= name_views(requested@));
    }
    missing
}

/// A copy of a list of names.
pub(crate) fn clone_names(names: &Vec<String>) -> (copy: Vec<String>)
    ensures
        copy@ == names@,
{
    let mut copy: Vec<String> = Vec::new();
    let mut i: usize = 0;
    while i < names.len()
        invariant
            i <= names.len(),
            copy@ == names@.take(i as int),
        decreases names.len() - i,
    {
        copy.push(names[i].clone());
        assert(copy@ =~= names@.take(i + 1));
        i += 1;
    }
    assert(names@.take(i as int) =~= names@);
    copy
}

/// The bytes that the native API reads for a name: its UTF-8 encoding and a
/// closing zero byte.
pub open spec fn null_terminated_of(name: Seq<char>) -> Seq<u8> {
    encode_utf8(name).push(0u8)
}

/// Whether a name can be handed to the native API: its encoding holds no
/// zero byte, which would end the name early.
pub open spec fn is_native_name(name: Seq<char>) -> bool {
    !encode_utf8(name).contains(0u8)
}

/// No byte of the encoding of a character is zero, but for the one byte of
/// the character zero.
proof fn lemma_zero_byte_of_scalar(scalar: u32)
    ensures
        vstd::utf8::encode_scalar(scalar).contains(0u8) <==> scalar == 0,
{
    let bytes = vstd::utf8::encode_scalar(scalar);
    assert(scalar <= 0x7F ==> (((scalar & 0x7F) as u8 == 0u8) <==> scalar == 0)) by (bit_vector);
    assert((0xC0u8 | ((scalar >> 6) & 0x1F) as u8) != 0u8) by (bit_vector);
    assert((0xE0u8 | ((scalar >> 12) & 0x0F) as u8) != 0u8) by (bit_vector);
    assert((0xF0u8 | ((scalar >> 18) & 0x7) as u8) != 0u8) by (bit_vector);
    assert((0x80u8 | (scalar & 0x3F) as u8) != 0u8) by (bit_vector);
    assert((0x80u8 | ((scalar >> 6) & 0x3F) as u8) != 0u8) by (bit_vector);
    assert((0x80u8 | ((scalar >> 12) & 0x3F) as u8) != 0u8) by (bit_vector);
    if scalar == 0 {
        assert(bytes[0] == 0u8);
    }
    if bytes.contains(0u8) {
        let k = choose|k: int| 0 <= k < bytes.len() && bytes[k] == 0u8;
        assert(bytes[k] == 0u8);
    }
}

/// A name can be handed to the native API exactly when none of its
/// characters is the character zero.
pub proof fn lemma_native_name_has_no_zero_character(name: Seq<char>)
    ensures
        is_native_name(name) <==> !name.contains('\0'),
    decreases name.len(),
{
    if name.len() > 0 {
        let head = vstd::utf8::encode_scalar(name[0] as u32);
        let rest = name.drop_first();
        let tail = encode_utf8(rest);
        let all = encode_utf8(name);
        assert(all == head + tail);
        lemma_zero_byte_of_scalar(name[0] as u32);
        lemma_native_name_has_no_zero_character(rest);
        assert((name[0] as u32 == 0) <==> name[0] == '\0') by {
            vstd::utf8::char_u32_cast(name[0], name[0] as u32);
            vstd::utf8::char_u32_cast('\0', 0u32);
        }
        if all.contains(0u8) {
            let k = choose|k: int| 0 <= k < all.len() && all[k] == 0u8;
            if k < head.len() {
                assert(head[k] == 0u8);
                assert(name[0] == '\0');
            } else {
                assert(tail[k - head.len()] == 0u8);
                let j = choose|j: int| 0 <= j < rest.len() && rest[j] == '\0';
                assert(name[j + 1] == '\0');
            }
        }
        if name.contains('\0') {
            let j = choose|j: int| 0 <= j < name.len() && name[j] == '\0';
            if j == 0 {
                let k = choose|k: int| 0 <= k < head.len() && head[k] == 0u8;
                assert(all[k] == 0u8);
            } else {
                assert(rest[j - 1] == '\0');
                let k = choose|k: int| 0 <= k < tail.len() && tail[k] == 0u8;
                assert(all[head.len() + k] == 0u8);
            }
        }
    }
}

/// The null-terminated bytes of a name, or `None` where the name holds the
/// character zero.
pub fn null_terminated(name: &str) -> (bytes: Option<Vec<u8>>)
    ensures
        bytes is None <==> name@.contains('\0'),
        bytes is Some <==> is_native_name(name@),
        bytes matches Some(b) ==> b@ == null_terminated_of(name@),
{
    proof {
        lemma_native_name_has_no_zero_character(name@);
    }
    let raw = name.as_bytes();
    let mut bytes: Vec<u8> = Vec::new();
    let mut i: usize = 0;
    while i < raw.len()
        invariant
            i <= raw.len(),
            raw@ == encode_utf8(name@),
            is_native_name(name@) <==> !name@.contains('\0'),
            bytes@ == raw@.take(i as int),
            forall|j: int| 0 <= j < i ==> raw@[j] != 0u8,
        decreases raw.len() - i,
    {
        if raw[i] == 0 {
            assert(raw@[i as int] == 0u8);
            return None;
        }
        bytes.push(raw[i]);
        assert(bytes@ =~= raw@.take(i + 1));
        i += 1;
    }
    assert(raw@.take(i as int) =~= raw@);
    bytes.push(0);
    Some(bytes)
}

/// The null-terminated bytes of every name of a list, in order, or `None`
/// where one of the names holds a zero byte.
pub fn native_names(names: &Vec<String>) -> (all: Option<Vec<Vec<u8>>>)
    ensures
        all is Some <==> forall|i: int|
            0 <= i < names@.len() ==> is_native_name(#[trigger] names@[i]@),
        all matches Some(list) ==> list@.len() == names@.len() && forall|i: int|
            0 <= i < names@.len() ==> (#[trigger] list@[i])@ == null_terminated_of(names@[i]@),
{
    let mut list: Vec<Vec<u8>> = Vec::new();
    let mut i: usize = 0;
    while i < names.len()
        invariant
            i <= names.len(),
            list@.len() == i,
            forall|j: int| 0 <= j < i ==> is_native_name(#[trigger] names@[j]@),
            forall|j: int| 0 <= j < i ==> (#[trigger] list@[j])@ == null_terminated_of(names@[j]@),
        decreases names.len() - i,
    {
        match null_terminated(names[i].as_str()) {
            Some(bytes) => {
                list.push(bytes);
            },
            None => {
                assert(!is_native_name(names@[i as int]@));
                return None;
            },
        }
        i += 1;
    }
    Some(list)
}

/// Whether `n` is the place of the first zero byte of a name field.
pub open spec fn is_terminator(field: Seq<u8>, n: int) -> bool {
    &&& 0 <= n < field.len()
    &&& field[n] == 0u8
    &&& forall|j: int| 0 <= j < n ==> field[j] != 0u8
}

/// The bytes of the name in a field: those before its first zero byte.
pub open spec fn name_bytes(field: Seq<u8>) -> Seq<u8> {
    field.take(choose|n: int| is_terminator(field, n))
}

/// The name that a field of the native API holds: the bytes before its first
/// zero byte, read as UTF-8. There is none where the field holds no zero byte
/// or those bytes are not UTF-8.
pub open spec fn decoded_of(field: Seq<u8>) -> Option<Seq<char>> {
    if field.contains(0u8) && valid_utf8(name_bytes(field)) {
        Some(decode_utf8(name_bytes(field)))
    } else {
        None
    }
}

/// A field has one first zero byte at most.
pub proof fn lemma_terminator_unique(field: Seq<u8>, n: int, m: int)
    requires
        is_terminator(field, n),
        is_terminator(field, m),
    ensures
        n == m,
{
}

/// Reading a name back from its null-terminated bytes gives the name,
/// whatever follows the closing zero byte in the field.
pub proof fn lemma_decode_inverts_null_terminated(name: Seq<char>, rest: Seq<u8>)
    requires
        is_native_name(name),
    ensures
        decoded_of(null_terminated_of(name) + rest) == Some(name),
{
    broadcast use vstd::utf8::encode_utf8_valid_utf8, vstd::utf8::encode_utf8_decode_utf8;

    let encoded = encode_utf8(name);
    let field = null_terminated_of(name) + rest;
    let n = encoded.len() as int;
    assert(field[n] == 0u8);
    assert forall|j: int| 0 <= j < n implies field[j] != 0u8 by {
        assert(field[j] == encoded[j]);
    }
    assert(is_terminator(field, n));
    let m = choose|m: int| is_terminator(field, m);
    lemma_terminator_unique(field, n, m);
    assert(field.take(n) =~= encoded);
}

/// A name read from a field holds no zero byte, so it can be handed back to
/// the native API.
pub proof fn lemma_decoded_name_is_native(field: Seq<u8>)
    ensures
        decoded_of(field) matches Some(name) ==> is_native_name(name) && null_terminated_of(name)
            == name_bytes(field).push(0u8),
{
    if decoded_of(field) is Some {
        let n = choose|n: int| is_terminator(field, n);
        let k = choose|k: int| 0 <= k < field.len() && field[k] == 0u8;
        lemma_first_zero_exists(field, k);
        assert(is_terminator(field, n));
        vstd::utf8::decode_utf8_encode_utf8(name_bytes(field));
        assert forall|j: int| 0 <= j < name_bytes(field).len() implies name_bytes(field)[j]
            != 0u8 by {
            assert(name_bytes(field)[j] == field[j]);
        }
    }
}

/// A field that holds a zero byte has a first one.
pub proof fn lemma_first_zero_exists(field: Seq<u8>, k: int)
    requires
        0 <= k < field.len(),
        field[k] == 0u8,
    ensures
        exists|n: int| is_terminator(field, n),
    decreases k,
{
    if forall|j: int| 0 <= j < k ==> field[j] != 0u8 {
        assert(is_terminator(field, k));
    } else {
        let j = choose|j: int| 0 <= j < k && field[j] == 0u8;
        lemma_first_zero_exists(field, j);
    }
}

/// Where every offered name can be handed to the native API, so can every
/// name of a request that the offer covers.
pub proof fn lemma_offered_names_are_native(requested: Seq<Seq<char>>, available: Seq<Seq<char>>)
    requires
        all_offered(requested, available),
        forall|i: int| 0 <= i < available.len() ==> is_native_name(#[trigger] available[i]),
    ensures
        forall|i: int| 0 <= i < requested.len() ==> is_native_name(#[trigger] requested[i]),
{
    assert forall|i: int| 0 <= i < requested.len() implies is_native_name(
        #[trigger] requested[i],
    ) by {
        assert(available.contains(requested[i]));
        let k = choose|k: int| 0 <= k < available.len() && available[k] == requested[i];
        assert(is_native_name(available[k]));
    }
}

/// `String::from_utf8`: the string whose UTF-8 encoding is the given bytes,
/// or nothing where the bytes are not valid UTF-8.
#[verifier::external_body]
fn string_from_utf8(bytes: Vec<u8>) -> (text: Option<String>)
    ensures
        text is Some <==> valid_utf8(bytes@),
        text matches Some(s) ==> encode_utf8(s@) == bytes@,
{
    String::from_utf8(bytes).ok()
}

/// Decodes the name in a field of the native API, which ends at the first
/// zero byte. Returns `None` where the field holds no zero byte or the name
/// is not UTF-8.
pub fn decode_name(field: &[u8]) -> (name: Option<String>)
    ensures
        match name {
            Some(text) => decoded_of(field@) == Some(text@),
            None => decoded_of(field@) is None,
        },
{
    let mut n: usize = 0;
    let mut bytes: Vec<u8> = Vec::new();
    while n < field.len() && field[n] != 0
        invariant
            n <= field.len(),
            forall|j: int| 0 <= j < n ==> field@[j] != 0u8,
            bytes@ == field@.take(n as int),
        decreases field.len() - n,
    {
        bytes.push(field[n]);
        assert(bytes@ =~= field@.take(n + 1));
        n += 1;
    }
    if n == field.len() {
        return None;
    }
    proof {
        assert(is_terminator(field@, n as int));
        let m = choose|m: int| is_terminator(field@, m);
        lemma_terminator_unique(field@, n as int, m);
        assert(field@[n as int] == 0u8);
    }
    match string_from_utf8(bytes) {
        Some(text) => {
            proof {
                vstd::utf8::encode_utf8_decode_utf8(text@);
            }
            Some(text)
        },
        None => None,
    }
}

} // verus!
