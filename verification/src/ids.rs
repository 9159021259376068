//! Asset and instance identifiers.
//!
//! An identifier is the 128-bit value of a UUID; the `uuid` crate writes it as text.
use vstd::prelude::*;

use crate::text;

verus! {

/// The 32 hexadecimal digits of an identifier.
pub open spec fn simple(id: u128) -> Seq<char> {
    text::hex(id as nat, 32)
}

/// The identifier in groups of 8, 4, 4, 4 and 12 digits, with hyphens between them.
pub open spec fn hyphenated(id: u128) -> Seq<char> {
    let digits = simple(id);
    digits.subrange(0, 8) + seq!['-'] + digits.subrange(8, 12) + seq!['-'] + digits.subrange(12, 16)
        + seq!['-'] + digits.subrange(16, 20) + seq!['-'] + digits.subrange(20, 32)
}

/// `uuid::Uuid::from_u128` followed by `simple`: the value as 32 lower-case hexadecimal digits,
/// the most significant one first.
#[verifier::external_body]
pub(crate) fn simple_text(id: u128) -> (r: String)
    ensures
        r@ == simple(id),
{
    uuid::Uuid::from_u128(id).simple().to_string()
}

/// `uuid::Uuid::from_u128` followed by `hyphenated`: the same 32 digits with a hyphen after the
/// 8th, 12th, 16th and 20th.
#[verifier::external_body]
pub(crate) fn hyphenated_text(id: u128) -> (r: String)
    ensures
        r@ == hyphenated(id),
{
    uuid::Uuid::from_u128(id).hyphenated().to_string()
}

/// Archive key of the resources that one authored asset brings into a stage.
pub open spec fn resource_key(asset_id: u128) -> Seq<char> {
    "sms_"@ + simple(asset_id)
}

/// Name of the character record that one authored asset brings into a stage.
pub open spec fn character_name(asset_id: u128) -> Seq<char> {
    resource_key(asset_id) + "_character"@
}

/// Archive key of the resources that one authored asset brings into a stage.
pub fn model_runtime_resource_key(asset_id: u128) -> (r: String)
    ensures
        r@ == resource_key(asset_id),
{
    "sms_".to_owned().concat(simple_text(asset_id).as_str())
}

/// Name of the character record that one authored asset brings into a stage.
pub fn runtime_character_name(asset_id: u128) -> (r: String)
    ensures
        r@ == character_name(asset_id),
{
    model_runtime_resource_key(asset_id).concat("_character")
}

/// The `width` digits that `hex` gives fix the value below `16^width`.
pub(crate) proof fn lemma_hex_injective(a: nat, b: nat, width: nat)
    requires
        text::hex(a, width) == text::hex(b, width),
        a < vstd::arithmetic::power::pow(16, width),
        b < vstd::arithmetic::power::pow(16, width),
    ensures
        a == b,
    decreases width,
{
    reveal(vstd::arithmetic::power::pow);
    if width > 0 {
        let w = (width - 1) as nat;
        let ha = text::hex(a / 16, w);
        let hb = text::hex(b / 16, w);
        lemma_hex_len(a / 16, w);
        lemma_hex_len(b / 16, w);
        assert(ha =~= ha.push(text::hex_char((a % 16) as int)).drop_last());
        assert(hb =~= hb.push(text::hex_char((b % 16) as int)).drop_last());
        assert(ha.push(text::hex_char((a % 16) as int)).last() == text::hex_char((a % 16) as int));
        assert(hb.push(text::hex_char((b % 16) as int)).last() == text::hex_char((b % 16) as int));
        lemma_hex_injective(a / 16, b / 16, w);
    }
}

pub(crate) proof fn lemma_hex_len(n: nat, width: nat)
    ensures
        text::hex(n, width).len() == width,
    decreases width,
{
    if width > 0 {
        lemma_hex_len(n / 16, (width - 1) as nat);
    }
}

/// Two assets never share an archive key, so their exported resources never collide.
pub proof fn law_resource_keys_are_distinct(a: u128, b: u128)
    requires
        a != b,
    ensures
        resource_key(a) != resource_key(b),
        character_name(a) != character_name(b),
{
    lemma_hex_len(a as nat, 32);
    lemma_hex_len(b as nat, 32);
    if simple(a) == simple(b) {
        assert(vstd::arithmetic::power::pow(16, 32) == 0x1_0000_0000_0000_0000_0000_0000_0000_0000)
            by {
            reveal_with_fuel(vstd::arithmetic::power::pow, 33);
        }
        lemma_hex_injective(a as nat, b as nat, 32);
    }
    let n = "sms_"@.len();
    assert(resource_key(a).skip(n as int) =~= simple(a));
    assert(resource_key(b).skip(n as int) =~= simple(b));
    assert(character_name(a).take((n + 32) as int) =~= resource_key(a));
    assert(character_name(b).take((n + 32) as int) =~= resource_key(b));
}

} // verus!
