//! Names that kanata's parser gives keys and modifiers, and lower-casing text.

use vstd::prelude::*;
use kanata_parser::custom_action::UnmodMods;
use kanata_parser::keys::OsCode;
use crate::text::texts;
use crate::protocol::opt_text;

verus! {

/// The name of the `i`-th flag of the parser's `UnmodMods` set, in declaration order; flag `i`
/// is the bit of value `2^i`.
pub open spec fn unmod_flag_name(i: int) -> Seq<char> {
    if i == 0 {
        "LSft"@
    } else if i == 1 {
        "RSft"@
    } else if i == 2 {
        "LAlt"@
    } else if i == 3 {
        "RAlt"@
    } else if i == 4 {
        "LCtl"@
    } else if i == 5 {
        "RCtl"@
    } else if i == 6 {
        "LMet"@
    } else {
        "RMet"@
    }
}

/// The value of bit `i` of a byte, for `0 <= i < 8`.
pub open spec fn bit_value(i: int) -> int {
    if i == 0 {
        1
    } else if i == 1 {
        2
    } else if i == 2 {
        4
    } else if i == 3 {
        8
    } else if i == 4 {
        16
    } else if i == 5 {
        32
    } else if i == 6 {
        64
    } else {
        128
    }
}

/// Bit `i` of `bits` is set.
pub open spec fn bit_set(bits: u8, i: int) -> bool {
    (bits as int / bit_value(i)) % 2 == 1
}

/// The names of the flags among the first `k` that are set in `bits`, in declaration order.
pub open spec fn unmod_names(bits: u8, k: nat) -> Seq<Seq<char>>
    decreases k,
{
    if k == 0 {
        Seq::empty()
    } else {
        let earlier = unmod_names(bits, (k - 1) as nat);
        if bit_set(bits, k - 1) {
            earlier.push(unmod_flag_name(k - 1))
        } else {
            earlier
        }
    }
}

/// The lower-case form of `s`, as `str::to_lowercase` computes it.
pub uninterp spec fn spec_to_lowercase(s: Seq<char>) -> Seq<char>;

/// `name` is what kanata's parser called the OS key code `code` at one call: the `Display`
/// form of `OsCode::try_from(code)` (the `OsCode` name without its `KEY_` prefix), or `None`
/// where no key has that code. This relates a code to a name; it does not make the name a
/// function of the code, since the mapping depends on the target platform (and, on one target,
/// on a process-wide setting that can change between calls).
pub uninterp spec fn os_key_name_of(code: usize, name: Option<Seq<char>>) -> bool;

/// Calls `OsCode::try_from(code)` of `kanata_parser` and, on success, renders the key code with
/// its `Display` impl. The contract claims only that the result is kanata's name for the code
/// `code` that was passed (`os_key_name_of`); which key, if any, has that code is not stated.
#[verifier::external_body]
pub(crate) fn os_key_name(code: usize) -> (res: Option<String>)
    ensures
        os_key_name_of(code, opt_text(res)),
{
    match OsCode::try_from(code) {
        Ok(osc) => Some(osc.to_string()),
        Err(_) => None,
    }
}

/// Calls `UnmodMods::iter_names` of `kanata_parser` (a `bitflags` set) on the set with the
/// bits `bits` and collects the flag names. The contract claims what the two crates' sources
/// show: the set declares eight one-bit flags, `LSft` (bit 0) to `RMet` (bit 7), and
/// `iter_names` yields, in declaration order, the name of each flag whose bit is set.
#[verifier::external_body]
pub(crate) fn unmod_mod_names(bits: u8) -> (res: Vec<String>)
    ensures
        texts(res@) == unmod_names(bits, 8),
{
    UnmodMods::from_bits_retain(bits).iter_names().map(|(name, _)| name.to_string()).collect()
}

/// The ASCII lower-case form of `c`: `A` to `Z` become `a` to `z`, any other character stays.
pub open spec fn ascii_lower(c: char) -> char {
    if 'A' <= c && c <= 'Z' {
        ((c as u32) + 32) as char
    } else {
        c
    }
}

/// The ASCII lower-case form of each character of `s`.
pub open spec fn ascii_lower_text(s: Seq<char>) -> Seq<char> {
    s.map_values(|c: char| ascii_lower(c))
}

/// `s` holds only ASCII characters.
pub open spec fn is_ascii_text(s: Seq<char>) -> bool {
    forall|i: int| 0 <= i < s.len() ==> (s[i] as u32) < 128
}

/// The flag names are ASCII, and so is every list of them.
pub proof fn lemma_unmod_names_ascii(bits: u8, k: nat)
    ensures
        forall|i: int| 0 <= i < unmod_names(bits, k).len() ==> is_ascii_text(
            #[trigger] unmod_names(bits, k)[i],
        ),
    decreases k,
{
    reveal_strlit("LSft");
    reveal_strlit("RSft");
    reveal_strlit("LAlt");
    reveal_strlit("RAlt");
    reveal_strlit("LCtl");
    reveal_strlit("RCtl");
    reveal_strlit("LMet");
    reveal_strlit("RMet");
    if k > 0 {
        let earlier = unmod_names(bits, (k - 1) as nat);
        lemma_unmod_names_ascii(bits, (k - 1) as nat);
        let name = unmod_flag_name(k - 1);
        assert(is_ascii_text(name));
        assert forall|i: int| 0 <= i < unmod_names(bits, k).len() implies is_ascii_text(
            #[trigger] unmod_names(bits, k)[i],
        ) by {
            if bit_set(bits, k - 1) {
                if i < earlier.len() {
                    assert(unmod_names(bits, k)[i] == earlier[i]);
                } else {
                    assert(unmod_names(bits, k)[i] == name);
                }
            } else {
                assert(unmod_names(bits, k)[i] == earlier[i]);
            }
        }
    }
}

/// Calls `str::to_lowercase`. Lower case is Unicode's (its `Lowercase` property, as the
/// documentation says), so the result is named `spec_to_lowercase(s@)`; on ASCII text, where
/// Unicode's lower-case mapping takes `A` to `Z` to `a` to `z` and leaves every other character,
/// the contract states it.
#[verifier::external_body]
pub(crate) fn to_lowercase(s: &str) -> (res: String)
    ensures
        res@ == spec_to_lowercase(s@),
        is_ascii_text(s@) ==> res@ == ascii_lower_text(s@),
{
    s.to_lowercase()
}

} // verus!
