//! Contracts between modules, known by their fingerprint.
//!
//! A contract is a set of function signatures. Its fingerprint is a digest
//! of its declaration, so two modules that were built apart agree on it
//! without sharing code. A module lists the fingerprints of the contracts
//! that it implements, and a caller looks a contract up by its fingerprint.

use vstd::prelude::*;
use vstd::string::{StringExecFns, StringSliceAdditionalSpecFns};
use convert_case::{Case, Casing};

verus! {

/// The BLAKE-256 digest of `data`.
pub uninterp spec fn blake256(data: Seq<u8>) -> Seq<u8>;

/// `text` in upper snake case.
pub uninterp spec fn upper_snake(text: Seq<char>) -> Seq<char>;

/// The failure of a digest computation.
#[verifier::external_type_specification]
#[verifier::external_body]
pub struct ExBlakeError(blake::BlakeError);

/// Calls `blake::hash` with a digest length of 256 bits. The digest is a
/// function of the data alone. The call succeeds: the outside function
/// fails only for a digest length that it does not know, and 256 is one
/// that it knows. The data must be shorter than 2^61 bytes, because the
/// outside function counts its length in bits in 64 bits.
#[verifier::external_body]
fn blake_hash_256(data: &[u8]) -> (r: Result<[u8; 32], blake::BlakeError>)
    requires
        data@.len() < 0x2000_0000_0000_0000,
    ensures
        r is Ok,
        r matches Ok(digest) ==> digest@ == blake256(data@),
{
    let mut digest = [0u8; 32];
    match blake::hash(256, data, &mut digest) {
        Ok(()) => Ok(digest),
        Err(e) => Err(e),
    }
}

/// Calls `convert_case::Casing::to_case` with `Case::UpperSnake`. The
/// result is a function of the text alone.
#[verifier::external_body]
fn to_upper_snake(text: &str) -> (r: String)
    ensures
        r@ == upper_snake(text@),
{
    text.to_case(Case::UpperSnake)
}

/// The fingerprint of a contract: the BLAKE-256 digest of its declaration.
pub fn fingerprint(declaration: &str) -> (r: [u8; 32])
    requires
        declaration.spec_bytes().len() < 0x2000_0000_0000_0000,
    ensures
        r@ == blake256(declaration.spec_bytes()),
{
    match blake_hash_256(declaration.as_bytes()) {
        Ok(digest) => digest,
        Err(_) => {
            proof {
                assert(false);
            }
            [0u8; 32]
        },
    }
}

/// The name under which the fingerprint of the contract `name` is kept.
pub fn hash_var_name(name: &str) -> (r: String)
    ensures
        r@ == upper_snake(name@ + "_HASH"@),
{
    let mut joined = name.to_owned();
    joined.append("_HASH");
    to_upper_snake(joined.as_str())
}

/// A contract: its name, the name under which its fingerprint is kept,
/// and its fingerprint.
#[derive(Clone, Debug, PartialEq)]
pub struct ZomeTrait {
    pub name: String,
    pub hash_var_name: String,
    pub hash: [u8; 32],
}

/// Declares the contract `name` with the signatures in `declaration`.
pub fn zome_trait(name: &str, declaration: &str) -> (r: ZomeTrait)
    requires
        declaration.spec_bytes().len() < 0x2000_0000_0000_0000,
    ensures
        r.name@ == name@,
        r.hash_var_name@ == upper_snake(name@ + "_HASH"@),
        r.hash@ == blake256(declaration.spec_bytes()),
{
    ZomeTrait {
        name: name.to_owned(),
        hash_var_name: hash_var_name(name),
        hash: fingerprint(declaration),
    }
}

/// What a function of a contract takes first.
#[derive(Clone, Debug, PartialEq)]
pub enum MethodInput {
    /// Nothing.
    Nothing,
    /// The implementing value itself.
    Receiver,
    /// A value of the named type.
    Typed(String),
}

/// A function of a contract.
#[derive(Clone, Debug, PartialEq)]
pub struct TraitMethod {
    pub name: String,
    pub input: MethodInput,
    pub output: String,
}

/// A function that a module exposes to callers from outside: it takes one
/// value and hands it to the function of the contract that it stands for.
#[derive(Clone, Debug, PartialEq)]
pub struct ExternFn {
    pub extern_fn_name: String,
    pub input_type: String,
    pub output: String,
    pub target: String,
}

/// Whether the function can be exposed: it takes a value of a named type
/// first.
pub open spec fn exposable(method: TraitMethod) -> bool {
    method.input is Typed
}

/// Whether each of `methods` can be exposed.
pub fn all_exposable(methods: &Vec<TraitMethod>) -> (r: bool)
    ensures
        r == forall|k: int| 0 <= k < methods@.len() ==> exposable(#[trigger] methods@[k]),
{
    let mut i: usize = 0;
    while i < methods.len()
        invariant
            i <= methods@.len(),
            forall|k: int| 0 <= k < i ==> exposable(#[trigger] methods@[k]),
        decreases methods@.len() - i,
    {
        match &methods[i].input {
            MethodInput::Typed(_) => {},
            _ => {
                return false;
            },
        }
        i = i + 1;
    }
    true
}

/// Whether `e` exposes the function `method` of the implementation
/// `struct_name`: it is named like the function behind two underscores,
/// takes and gives what the function takes and gives, and calls the
/// function on the implementation.
pub open spec fn exposes(e: ExternFn, struct_name: Seq<char>, method: TraitMethod) -> bool {
    &&& e.extern_fn_name@ == "__"@ + method.name@
    &&& method.input matches MethodInput::Typed(t) && e.input_type@ == t@
    &&& e.output@ == method.output@
    &&& e.target@ == struct_name + "::"@ + method.name@
}

/// The functions that expose the implementation `struct_name` of a
/// contract to callers from outside: one for each function of the
/// contract, in order. Each function must take a value of a named type
/// first.
pub fn implement_zome_trait_as_externs(struct_name: &str, methods: &Vec<TraitMethod>) -> (r: Vec<
    ExternFn,
>)
    requires
        forall|k: int| 0 <= k < methods@.len() ==> exposable(#[trigger] methods@[k]),
    ensures
        r@.len() == methods@.len(),
        forall|k: int| 0 <= k < r@.len() ==> exposes(#[trigger] r@[k], struct_name@, methods@[k]),
{
    let mut out: Vec<ExternFn> = Vec::new();
    let mut i: usize = 0;
    while i < methods.len()
        invariant
            i <= methods@.len(),
            out@.len() == i,
            forall|k: int| 0 <= k < methods@.len() ==> exposable(#[trigger] methods@[k]),
            forall|k: int| 0 <= k < i ==> exposes(#[trigger] out@[k], struct_name@, methods@[k]),
        decreases methods@.len() - i,
    {
        let method = &methods[i];
        assert(exposable(methods@[i as int]));
        let input_type = match &method.input {
            MethodInput::Typed(t) => t.clone(),
            _ => String::new(),
        };
        let mut extern_fn_name = "__".to_owned();
        extern_fn_name.append(method.name.as_str());
        let mut target = struct_name.to_owned();
        target.append("::");
        target.append(method.name.as_str());
        let ghost before = out@;
        out.push(ExternFn { extern_fn_name, input_type, output: method.output.clone(), target });
        proof {
            assert forall|k: int| 0 <= k < i + 1 implies exposes(
                #[trigger] out@[k],
                struct_name@,
                methods@[k],
            ) by {
                if k < i {
                    assert(out@[k] == before[k]);
                }
            }
        }
        i = i + 1;
    }
    out
}

/// The fingerprints of the contracts that a module implements, in the
/// order in which the module lists the contracts.
pub fn implemented_zome_traits(traits: &Vec<ZomeTrait>) -> (r: Vec<[u8; 32]>)
    ensures
        r@.len() == traits@.len(),
        forall|k: int| 0 <= k < r@.len() ==> #[trigger] r@[k] == traits@[k].hash,
{
    let mut out: Vec<[u8; 32]> = Vec::new();
    let mut i: usize = 0;
    while i < traits.len()
        invariant
            i <= traits@.len(),
            out@.len() == i,
            forall|k: int| 0 <= k < i ==> #[trigger] out@[k] == traits@[k].hash,
        decreases traits@.len() - i,
    {
        out.push(traits[i].hash);
        i = i + 1;
    }
    out
}

/// Whether two fingerprints are the same.
pub fn same_hash(a: &[u8; 32], b: &[u8; 32]) -> (r: bool)
    ensures
        r == (a@ == b@),
{
    let mut i: usize = 0;
    while i < 32
        invariant
            i <= 32,
            forall|k: int| 0 <= k < i ==> a@[k] == b@[k],
        decreases 32 - i,
    {
        if a[i] != b[i] {
            return false;
        }
        i = i + 1;
    }
    proof {
        assert(a@ =~= b@);
    }
    true
}

/// Whether a module that lists `registry` implements the contract with the
/// fingerprint `hash`.
pub fn implements(registry: &Vec<[u8; 32]>, hash: &[u8; 32]) -> (r: bool)
    ensures
        r == exists|k: int| 0 <= k < registry@.len() && (#[trigger] registry@[k])@ == hash@,
{
    let mut i: usize = 0;
    while i < registry.len()
        invariant
            i <= registry@.len(),
            forall|k: int| 0 <= k < i ==> (#[trigger] registry@[k])@ != hash@,
        decreases registry@.len() - i,
    {
        if same_hash(&registry[i], hash) {
            return true;
        }
        i = i + 1;
    }
    false
}

} // verus!
