use bdk::miniscript::descriptor::{DescriptorPublicKey, Wildcard};
use vstd::prelude::*;
use crate::error::WalletError;
use crate::fee::ScriptKind;
use crate::sync::HARDENED_START;

verus! {

#[verifier::external_type_specification]
#[verifier::external_body]
pub struct ExDescriptorError(bdk::descriptor::DescriptorError);

/// The eight-character checksum of a descriptor body, if every character of
/// it belongs to the descriptor alphabet.
pub uninterp spec fn checksum_of(body: Seq<char>) -> Option<Seq<char>>;

/// Relies on `bdk::descriptor::checksum::get_checksum`: the eight checksum
/// characters, or an error for a character outside the descriptor alphabet.
#[verifier::external_body]
fn compute_checksum(body: &Vec<char>) -> (r: Result<Vec<char>, bdk::descriptor::DescriptorError>)
    ensures
        match r {
            Ok(c) => checksum_of(body@) == Some(c@) && c@.len() == 8,
            Err(_) => checksum_of(body@) is None,
        },
{
    let text: String = body.iter().collect();
    bdk::descriptor::checksum::get_checksum(&text).map(|c| c.chars().collect())
}

#[verifier::external_type_specification]
#[verifier::external_body]
pub struct ExBdkError(bdk::Error);

/// The testnet address that a descriptor yields at a child index, if the
/// descriptor parses and its script has an address form.
pub uninterp spec fn address_at(desc: Seq<char>, index: u32) -> Option<Seq<char>>;

/// Each key of a descriptor as its extended-key depth, the length of the
/// derivation path written after it, and whether a wildcard follows; `None`
/// if the text does not parse as a public-key descriptor.
pub uninterp spec fn key_shapes_of(desc: Seq<char>) -> Option<Seq<(u8, usize, bool)>>;

/// Relies on miniscript's `Descriptor::<DescriptorPublicKey>::from_str`, which
/// also checks a checksum suffix, and `ForEachKey::for_each_key`: every key is
/// reported, an extended key by its `depth`, its `derivation_path` length and
/// whether its `wildcard` is set, a single key as depth 0 with no path.
#[verifier::external_body]
fn key_shapes(desc: &Vec<char>) -> (r: Option<Vec<(u8, usize, bool)>>)
    ensures
        match r {
            Some(v) => key_shapes_of(desc@) == Some(v@),
            None => key_shapes_of(desc@) is None,
        },
{
    let text: String = desc.iter().collect();
    let d = text.parse::<bdk::miniscript::Descriptor<DescriptorPublicKey>>().ok()?;
    let mut v = Vec::new();
    bdk::miniscript::ForEachKey::for_each_key(&d, |k| {
        v.push(match k.as_key() {
            DescriptorPublicKey::XPub(x) => (x.xkey.depth, x.derivation_path.len(), !matches!(x.wildcard, Wildcard::None)),
            DescriptorPublicKey::SinglePub(_) => (0, 0, false),
        });
        true
    });
    Some(v)
}

/// Deriving one of these keys takes one step per path element and one for a
/// wildcard, and the depth of the result must still fit in a byte.
pub open spec fn shapes_derivable(ks: Seq<(u8, usize, bool)>) -> bool {
    forall|i: int|
        0 <= i < ks.len() ==> (#[trigger] ks[i]).0 + ks[i].1 + (if ks[i].2 {
            1int
        } else {
            0
        }) <= 255
}

/// The descriptor parses and every key in it can be derived from.
pub open spec fn derivable(desc: Seq<char>) -> bool {
    key_shapes_of(desc) matches Some(ks) && shapes_derivable(ks)
}

fn shapes_fit(ks: &Vec<(u8, usize, bool)>) -> (r: bool)
    ensures
        r == shapes_derivable(ks@),
{
    let mut i: usize = 0;
    while i < ks.len()
        invariant
            i <= ks@.len(),
            forall|j: int| 0 <= j < i ==> #[trigger] ks@[j].0 + ks@[j].1 + (if ks@[j].2 {
                1int
            } else {
                0
            }) <= 255,
        decreases ks@.len() - i,
    {
        let (depth, len, wild) = ks[i];
        let steps: u128 = depth as u128 + len as u128 + if wild { 1 } else { 0 };
        if steps > 255 {
            return false;
        }
        i = i + 1;
    }
    true
}

/// Whether every key of a descriptor can be derived from.
pub fn keys_derivable(desc: &Vec<char>) -> (r: bool)
    ensures
        r == derivable(desc@),
{
    match key_shapes(desc) {
        Some(ks) => shapes_fit(&ks),
        None => false,
    }
}

/// Relies on bdk's `Wallet::new_offline` with an empty in-memory database and
/// `Wallet::get_address(AddressIndex::Peek(index))`: parses the descriptor for
/// testnet and derives the address at `index` without recording anything.
/// Derivation unwraps a normal child number, so `index` stays below 2^31, and
/// adds one to a key's depth byte per step, so every key stays derivable.
#[verifier::external_body]
fn peek_address(desc: &Vec<char>, index: u32) -> (r: Result<String, bdk::Error>)
    requires
        index < HARDENED_START,
        derivable(desc@),
    ensures
        match r {
            Ok(a) => address_at(desc@, index) == Some(a@),
            Err(_) => address_at(desc@, index) is None,
        },
{
    let text: String = desc.iter().collect();
    let db = bdk::database::MemoryDatabase::default();
    let net = bdk::bitcoin::Network::Testnet;
    let wallet = bdk::Wallet::new_offline(text.as_str(), None, net, db)?;
    let info = wallet.get_address(bdk::wallet::AddressIndex::Peek(index))?;
    Ok(info.address.to_string())
}

/// The receive address of a descriptor at `index`. The result depends on the
/// descriptor text and the index alone, so deriving twice gives the same
/// address. Indices from 2^31 on are hardened and cannot be derived from a
/// public key.
pub fn receive_address(desc: &Vec<char>, index: u32) -> (r: Result<String, WalletError>)
    ensures
        index >= HARDENED_START ==> r == Err::<String, WalletError>(WalletError::InvalidIndex),
        index < HARDENED_START && !derivable(desc@) ==> r == Err::<String, WalletError>(
            WalletError::DescriptorParse,
        ),
        index < HARDENED_START && derivable(desc@) ==> match address_at(desc@, index) {
            Some(a) => r matches Ok(s) && s@ == a,
            None => r == Err::<String, WalletError>(WalletError::DescriptorParse),
        },
{
    if index >= HARDENED_START {
        return Err(WalletError::InvalidIndex);
    }
    if !keys_derivable(desc) {
        return Err(WalletError::DescriptorParse);
    }
    match peek_address(desc, index) {
        Ok(a) => Ok(a),
        Err(_) => Err(WalletError::DescriptorParse),
    }
}

/// The output script that an address text pays, if it is an address.
pub uninterp spec fn address_script(addr: Seq<char>) -> Option<Seq<u8>>;

/// Relies on `bitcoin::Address::from_str` (bitcoin 0.27, through bdk) and
/// `Address::script_pubkey`: the script an address pays, or an error for text
/// that is not an address.
#[verifier::external_body]
fn script_for_address(addr: &str) -> (r: Option<Vec<u8>>)
    ensures
        match r {
            Some(v) => address_script(addr@) == Some(v@),
            None => address_script(addr@) is None,
        },
{
    addr.parse::<bdk::bitcoin::Address>().ok().map(|a| a.script_pubkey().to_bytes())
}

/// The output script of a destination address; `InvalidRecipient` for text
/// that is not an address.
pub fn recipient_script(addr: &str) -> (r: Result<Vec<u8>, WalletError>)
    ensures
        match address_script(addr@) {
            Some(v) => r matches Ok(s) && s@ == v,
            None => r == Err::<Vec<u8>, WalletError>(WalletError::InvalidRecipient),
        },
{
    match script_for_address(addr) {
        Some(v) => Ok(v),
        None => Err(WalletError::InvalidRecipient),
    }
}

/// Whether a descriptor parses, can be derived from, and yields an address
/// at index 0.
pub fn descriptor_parses(desc: &Vec<char>) -> (r: bool)
    ensures
        r == (derivable(desc@) && address_at(desc@, 0) is Some),
{
    keys_derivable(desc) && peek_address(desc, 0).is_ok()
}

pub open spec fn has_prefix(s: Seq<char>, p: Seq<char>) -> bool {
    p.len() <= s.len() && s.take(p.len() as int) == p
}

/// The script type a descriptor's outer template names, if it is one the
/// wallet spends.
pub open spec fn kind_of(s: Seq<char>) -> Option<ScriptKind> {
    if has_prefix(s, seq!['w', 'p', 'k', 'h', '(']) {
        Some(ScriptKind::Wpkh)
    } else if has_prefix(s, seq!['s', 'h', '(', 'w', 'p', 'k', 'h', '(']) {
        Some(ScriptKind::ShWpkh)
    } else if has_prefix(s, seq!['p', 'k', 'h', '(']) {
        Some(ScriptKind::Pkh)
    } else {
        None
    }
}

fn starts_with(s: &Vec<char>, p: &[char]) -> (r: bool)
    ensures
        r == has_prefix(s@, p@),
{
    if p.len() > s.len() {
        return false;
    }
    let mut i: usize = 0;
    while i < p.len()
        invariant
            i <= p@.len(),
            p@.len() <= s@.len(),
            forall|j: int| 0 <= j < i ==> s@[j] == p@[j],
        decreases p@.len() - i,
    {
        if s[i] != p[i] {
            return false;
        }
        i = i + 1;
    }
    assert(s@.take(p@.len() as int) =~= p@);
    true
}

/// The script type of a descriptor; any other template is refused.
pub fn descriptor_kind(desc: &Vec<char>) -> (r: Result<ScriptKind, WalletError>)
    ensures
        match kind_of(desc@) {
            Some(k) => r == Ok::<ScriptKind, WalletError>(k),
            None => r == Err::<ScriptKind, WalletError>(WalletError::DescriptorParse),
        },
{
    let wpkh = ['w', 'p', 'k', 'h', '('];
    let sh_wpkh = ['s', 'h', '(', 'w', 'p', 'k', 'h', '('];
    let pkh = ['p', 'k', 'h', '('];
    assert(wpkh@ =~= seq!['w', 'p', 'k', 'h', '(']);
    assert(sh_wpkh@ =~= seq!['s', 'h', '(', 'w', 'p', 'k', 'h', '(']);
    assert(pkh@ =~= seq!['p', 'k', 'h', '(']);
    if starts_with(desc, wpkh.as_slice()) {
        Ok(ScriptKind::Wpkh)
    } else if starts_with(desc, sh_wpkh.as_slice()) {
        Ok(ScriptKind::ShWpkh)
    } else if starts_with(desc, pkh.as_slice()) {
        Ok(ScriptKind::Pkh)
    } else {
        Err(WalletError::DescriptorParse)
    }
}

/// Position of the first `#` at or after `i`, or the length if there is none.
pub open spec fn hash_from(s: Seq<char>, i: int) -> int
    decreases s.len() - i,
{
    if i >= s.len() || i < 0 {
        s.len() as int
    } else if s[i] == '#' {
        i
    } else {
        hash_from(s, i + 1)
    }
}

/// The descriptor body: everything before the first `#`.
pub open spec fn body_of(s: Seq<char>) -> Seq<char> {
    s.take(hash_from(s, 0))
}

/// The checksum suffix after the first `#`, if there is one.
pub open spec fn suffix_of(s: Seq<char>) -> Option<Seq<char>> {
    if hash_from(s, 0) < s.len() {
        Some(s.skip(hash_from(s, 0) + 1))
    } else {
        None
    }
}

/// The canonical text of a descriptor: its body, `#`, and the checksum; a
/// given suffix must equal the checksum.
pub open spec fn canonical(body: Seq<char>, given: Option<Seq<char>>, computed: Option<Seq<char>>) -> Option<Seq<char>> {
    match computed {
        None => None,
        Some(c) => if given is None || given == Some(c) {
            Some(body.push('#') + c)
        } else {
            None
        },
    }
}

proof fn lemma_hash_from_bounds(s: Seq<char>, i: int)
    requires
        0 <= i <= s.len(),
    ensures
        i <= hash_from(s, i) <= s.len(),
        hash_from(s, i) < s.len() ==> s[hash_from(s, i)] == '#',
        forall|j: int| i <= j < hash_from(s, i) ==> s[j] != '#',
    decreases s.len() - i,
{
    if i < s.len() && s[i] != '#' {
        lemma_hash_from_bounds(s, i + 1);
    }
}

/// Splits descriptor text at its first `#` into body and checksum suffix.
pub fn split_checksum(desc: &Vec<char>) -> (r: (Vec<char>, Option<Vec<char>>))
    ensures
        r.0@ == body_of(desc@),
        match (r.1, suffix_of(desc@)) {
            (None, None) => true,
            (Some(a), Some(b)) => a@ == b,
            _ => false,
        },
{
    let mut body: Vec<char> = Vec::new();
    let mut i: usize = 0;
    proof {
        lemma_hash_from_bounds(desc@, 0);
    }
    while i < desc.len() && desc[i] != '#'
        invariant
            i <= desc@.len(),
            i <= hash_from(desc@, 0),
            hash_from(desc@, 0) <= desc@.len(),
            hash_from(desc@, 0) < desc@.len() ==> desc@[hash_from(desc@, 0)] == '#',
            forall|j: int| 0 <= j < hash_from(desc@, 0) ==> desc@[j] != '#',
            body@ == desc@.take(i as int),
        decreases desc@.len() - i,
    {
        body.push(desc[i]);
        i = i + 1;
        assert(body@ =~= desc@.take(i as int));
    }
    if i == desc.len() {
        return (body, None);
    }
    let mut rest: Vec<char> = Vec::new();
    let mut j: usize = i + 1;
    while j < desc.len()
        invariant
            i < j <= desc@.len(),
            rest@ == desc@.subrange(i + 1, j as int),
        decreases desc@.len() - j,
    {
        rest.push(desc[j]);
        j = j + 1;
        assert(rest@ =~= desc@.subrange(i + 1, j as int));
    }
    assert(rest@ =~= desc@.skip(i + 1));
    (body, Some(rest))
}

fn same_chars(a: &Vec<char>, b: &Vec<char>) -> (r: bool)
    ensures
        r == (a@ == b@),
{
    if a.len() != b.len() {
        return false;
    }
    let mut i: usize = 0;
    while i < a.len()
        invariant
            i <= a@.len(),
            a@.len() == b@.len(),
            forall|j: int| 0 <= j < i ==> a@[j] == b@[j],
        decreases a@.len() - i,
    {
        if a[i] != b[i] {
            return false;
        }
        i = i + 1;
    }
    assert(a@ =~= b@);
    true
}

/// Checks a descriptor body against its computed checksum and an optional
/// given suffix, and returns the canonical text.
pub fn with_checksum(body: Vec<char>, given: Option<Vec<char>>, computed: Option<Vec<char>>) -> (r:
    Result<Vec<char>, WalletError>)
    ensures
        match canonical(
            body@,
            match given {
                Some(g) => Some(g@),
                None => None,
            },
            match computed {
                Some(c) => Some(c@),
                None => None,
            },
        ) {
            Some(t) => r matches Ok(v) && v@ == t,
            None => r == Err::<Vec<char>, WalletError>(WalletError::DescriptorParse),
        },
{
    let c = match computed {
        None => return Err(WalletError::DescriptorParse),
        Some(c) => c,
    };
    match &given {
        Some(g) => {
            if !same_chars(g, &c) {
                return Err(WalletError::DescriptorParse);
            }
        },
        None => {},
    }
    let mut out = body;
    let ghost b = out@;
    out.push('#');
    let mut i: usize = 0;
    while i < c.len()
        invariant
            i <= c@.len(),
            out@ == b.push('#') + c@.take(i as int),
        decreases c@.len() - i,
    {
        out.push(c[i]);
        i = i + 1;
        assert(out@ =~= b.push('#') + c@.take(i as int));
    }
    assert(c@.take(c@.len() as int) =~= c@);
    Ok(out)
}

/// Validates the checksum suffix of a descriptor, if present, and returns the
/// descriptor in canonical form with its checksum.
pub fn checked_descriptor(desc: &Vec<char>) -> (r: Result<Vec<char>, WalletError>)
    ensures
        match canonical(body_of(desc@), suffix_of(desc@), checksum_of(body_of(desc@))) {
            Some(t) => r matches Ok(v) && v@ == t,
            None => r == Err::<Vec<char>, WalletError>(WalletError::DescriptorParse),
        },
{
    let (body, given) = split_checksum(desc);
    let computed = match compute_checksum(&body) {
        Ok(c) => Some(c),
        Err(_) => None,
    };
    with_checksum(body, given, computed)
}

} // verus!
