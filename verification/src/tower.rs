//! The host's side of a spier: where its library is, what is looked up in it,
//! and what its answers mean.
use vstd::prelude::*;
use vstd::string::{StrSliceExecFns, StringExecFns};

use crate::text::{dec, decimal, hex16, hexadecimal, strings_model};

verus! {

/// A method to look up.
pub struct MethodConfig {
    pub name: &'static str,
}

/// What a host knows of an interface: its hash and its methods.
pub struct IdlDescriptor {
    pub hash: u64,
    pub methods: &'static [&'static str],
}

/// The operations of an interface.
pub trait SpierOp {
    /// The position of the operation among the methods.
    fn as_index(self) -> usize;
}

// ---------------------------------------------------------------------------
// Finding the library
// ---------------------------------------------------------------------------

/// The file name of a spier's library.
pub open spec fn lib_file(name: Seq<char>) -> Seq<char> {
    "lib"@ + name + ".so"@
}

/// The path of a file in a directory.
pub open spec fn joined_path(dir: Seq<char>, file: Seq<char>) -> Seq<char> {
    if dir.len() == 0 {
        file
    } else if dir.last() == '/' {
        dir + file
    } else {
        dir + "/"@ + file
    }
}

/// The path of a spier's library: in the directory that is given, else in that
/// of the environment, else wherever the loader looks.
pub open spec fn lib_path(
    name: Seq<char>,
    given: Option<Seq<char>>,
    env: Option<Seq<char>>,
) -> Seq<char> {
    match (given, env) {
        (Some(dir), _) => joined_path(dir, lib_file(name)),
        (None, Some(dir)) => joined_path(dir, lib_file(name)),
        (None, None) => lib_file(name),
    }
}

/// The characters of an optional text.
pub open spec fn opt_text(s: Option<&str>) -> Option<Seq<char>> {
    match s {
        Some(s) => Some(s@),
        None => None,
    }
}

fn join_path(dir: &str, file: &str) -> (r: String)
    ensures
        r@ == joined_path(dir@, file@),
{
    let n: usize = dir.unicode_len();
    if n == 0 {
        String::from_str(file)
    } else if dir.get_char(n - 1) == '/' {
        String::from_str(dir).concat(file)
    } else {
        String::from_str(dir).concat("/").concat(file)
    }
}

/// The path of a spier's library.
pub fn spier_path(name: &str, given: Option<&str>, env: Option<&str>) -> (r: String)
    ensures
        r@ == lib_path(name@, opt_text(given), opt_text(env)),
{
    let file = String::from_str("lib").concat(name).concat(".so");
    match given {
        Some(dir) => join_path(dir, file.as_str()),
        None => match env {
            Some(dir) => join_path(dir, file.as_str()),
            None => file,
        },
    }
}

/// The path at which a library is looked for in the environment's directory
/// `env`, or the message that it is not there. Without such a directory it is
/// not looked for. `exists` says whether there is a file at the path.
pub fn find(name: &str, env: Option<&str>, exists: bool) -> (r: Result<String, String>)
    ensures
        match env {
            Some(dir) => if exists {
                r is Ok && r->Ok_0@ == joined_path(dir@, lib_file(name@))
            } else {
                r is Err && r->Err_0@ == "spier not found: "@ + joined_path(
                    dir@,
                    lib_file(name@),
                ) + " (DYNSPIRE_LIB_DIR="@ + dir@ + ")"@
            },
            None => r is Ok && r->Ok_0@ == lib_file(name@),
        },
{
    let path = spier_path(name, None, env);
    match env {
        Some(dir) => {
            if exists {
                Ok(path)
            } else {
                Err(
                    String::from_str("spier not found: ").concat(path.as_str()).concat(
                        " (DYNSPIRE_LIB_DIR=",
                    ).concat(dir).concat(")"),
                )
            }
        },
        None => Ok(path),
    }
}

// ---------------------------------------------------------------------------
// Loading
// ---------------------------------------------------------------------------

/// How far loading has come.
#[derive(Clone, Copy, Debug, PartialEq, Eq, Structural)]
pub enum Stage {
    /// The library is being opened.
    Opening,
    /// The hash function is being looked up.
    FindingHash,
    /// The hash function is being called.
    ReadingHash,
    /// The symbol at this position is being looked up.
    Finding(usize),
    /// Everything has been found.
    Ready,
    /// Something has failed.
    Failed,
}

/// What has happened.
pub enum LoadEvent {
    /// What was asked for has been done.
    Done,
    /// The hash function has returned this.
    Hash(u64),
    /// What was asked for has failed, for this reason.
    Error(String),
}

/// What to do next.
pub enum LoadAction {
    /// Look up this symbol.
    Resolve(String),
    /// Call the hash function.
    CallHash,
    /// Nothing: everything has been found.
    Ready,
    /// Nothing: report this error.
    Fail(String),
    /// Wait: this event was not expected.
    Wait,
}

/// The model of a [`LoadAction`].
pub enum ActionModel {
    Resolve(Seq<char>),
    CallHash,
    Ready,
    Fail(Seq<char>),
    Wait,
}

impl View for LoadAction {
    type V = ActionModel;

    open spec fn view(&self) -> ActionModel {
        match *self {
            LoadAction::Resolve(s) => ActionModel::Resolve(s@),
            LoadAction::CallHash => ActionModel::CallHash,
            LoadAction::Ready => ActionModel::Ready,
            LoadAction::Fail(s) => ActionModel::Fail(s@),
            LoadAction::Wait => ActionModel::Wait,
        }
    }
}

/// Loading a library: what it is checked against, and how far it has come.
pub struct Loader {
    pub path: String,
    pub expected: u64,
    pub symbols: Vec<String>,
    pub stage: Stage,
}

/// The symbol of the hash function.
pub open spec fn hash_symbol() -> Seq<char> {
    "dynspire_idl_hash\0"@
}

/// The symbol of a method.
pub open spec fn dispatch_symbol(name: Seq<char>) -> Seq<char> {
    "dynspire_dispatch_"@ + name + "\0"@
}

/// The symbols that are looked up once the hash has been checked.
pub open spec fn symbol_list(methods: Seq<Seq<char>>) -> Seq<Seq<char>> {
    seq!["dynspire_spier_name\0"@, "dynspire_create\0"@, "dynspire_destroy\0"@]
        + methods.map_values(|m: Seq<char>| dispatch_symbol(m))
}

/// The message for a symbol that is not found.
pub open spec fn symbol_error(symbol: Seq<char>, reason: Seq<char>) -> Seq<char> {
    "symbol "@ + symbol + ": "@ + reason
}

/// The message for a library with another hash.
pub open spec fn hash_error(found: u64, expected: u64) -> Seq<char> {
    "IDL hash mismatch: spier=0x"@ + hex16(found) + ", expected=0x"@ + hex16(expected)
}

/// The model of an event's reason.
pub open spec fn reason(e: LoadEvent) -> Seq<char> {
    match e {
        LoadEvent::Error(s) => s@,
        _ => Seq::empty(),
    }
}

/// The stage that a loader is in after an event, and what it does.
pub open spec fn stepped(l: Loader, e: LoadEvent) -> (Stage, ActionModel) {
    match (l.stage, e) {
        (Stage::Opening, LoadEvent::Done) => (
            Stage::FindingHash,
            ActionModel::Resolve(hash_symbol()),
        ),
        (Stage::Opening, LoadEvent::Error(_)) => (
            Stage::Failed,
            ActionModel::Fail("dlopen "@ + l.path@ + ": "@ + reason(e)),
        ),
        (Stage::FindingHash, LoadEvent::Done) => (Stage::ReadingHash, ActionModel::CallHash),
        (Stage::FindingHash, LoadEvent::Error(_)) => (
            Stage::Failed,
            ActionModel::Fail(symbol_error(hash_symbol(), reason(e))),
        ),
        (Stage::ReadingHash, LoadEvent::Hash(h)) => if h != l.expected {
            (Stage::Failed, ActionModel::Fail(hash_error(h, l.expected)))
        } else {
            (Stage::Finding(0), ActionModel::Resolve(l.symbols@[0]@))
        },
        (Stage::Finding(i), LoadEvent::Done) => if i + 1 < l.symbols@.len() {
            (Stage::Finding((i + 1) as usize), ActionModel::Resolve(l.symbols@[i + 1]@))
        } else {
            (Stage::Ready, ActionModel::Ready)
        },
        (Stage::Finding(i), LoadEvent::Error(_)) => (
            Stage::Failed,
            ActionModel::Fail(symbol_error(l.symbols@[i as int]@, reason(e))),
        ),
        _ => (l.stage, ActionModel::Wait),
    }
}

impl Loader {
    /// A loader that has symbols to look up.
    pub open spec fn wf(self) -> bool {
        &&& self.symbols@.len() > 0
        &&& match self.stage {
            Stage::Finding(i) => i < self.symbols@.len(),
            _ => true,
        }
    }

    /// A loader for the library at `path`: its first action is to open it.
    pub fn new(path: &str, expected: u64, methods: &Vec<String>) -> (r: Loader)
        ensures
            r.wf(),
            r.path@ == path@,
            r.expected == expected,
            r.stage == Stage::Opening,
            strings_model(r.symbols@) == symbol_list(strings_model(methods@)),
    {
        let ghost all = symbol_list(strings_model(methods@));
        let mut symbols: Vec<String> = Vec::new();
        symbols.push(String::from_str("dynspire_spier_name\0"));
        symbols.push(String::from_str("dynspire_create\0"));
        symbols.push(String::from_str("dynspire_destroy\0"));
        assert(strings_model(symbols@) =~= all.take(3));
        let mut i: usize = 0;
        while i < methods.len()
            invariant
                i <= methods.len(),
                all == symbol_list(strings_model(methods@)),
                all.len() == methods@.len() + 3,
                strings_model(symbols@) == all.take(i + 3),
            decreases methods.len() - i,
        {
            let ghost before = strings_model(symbols@);
            symbols.push(
                String::from_str("dynspire_dispatch_").concat(methods[i].as_str()).concat("\0"),
            );
            assert(strings_model(symbols@) =~= before.push(dispatch_symbol(methods@[i as int]@)));
            assert(all[i + 3] == dispatch_symbol(methods@[i as int]@));
            assert(strings_model(symbols@) =~= all.take(i + 4));
            i = i + 1;
        }
        assert(strings_model(symbols@) =~= all);
        assert(symbols@.len() == all.len());
        Loader { path: String::from_str(path), expected, symbols, stage: Stage::Opening }
    }

    fn fail(&mut self, message: String) -> (r: LoadAction)
        ensures
            final(self).stage == Stage::Failed,
            final(self).path == old(self).path,
            final(self).expected == old(self).expected,
            final(self).symbols == old(self).symbols,
            r@ == ActionModel::Fail(message@),
    {
        self.stage = Stage::Failed;
        LoadAction::Fail(message)
    }

    /// Takes an event and says what to do next.
    pub fn step(&mut self, event: LoadEvent) -> (r: LoadAction)
        requires
            old(self).wf(),
        ensures
            final(self).wf(),
            (final(self).stage, r@) == stepped(*old(self), event),
            final(self).path == old(self).path,
            final(self).expected == old(self).expected,
            final(self).symbols == old(self).symbols,
    {
        match (self.stage, event) {
            (Stage::Opening, LoadEvent::Done) => {
                self.stage = Stage::FindingHash;
                LoadAction::Resolve(String::from_str("dynspire_idl_hash\0"))
            },
            (Stage::Opening, LoadEvent::Error(e)) => {
                let message = String::from_str("dlopen ").concat(self.path.as_str()).concat(
                    ": ",
                ).concat(e.as_str());
                self.fail(message)
            },
            (Stage::FindingHash, LoadEvent::Done) => {
                self.stage = Stage::ReadingHash;
                LoadAction::CallHash
            },
            (Stage::FindingHash, LoadEvent::Error(e)) => {
                let message = String::from_str("symbol ").concat("dynspire_idl_hash\0").concat(
                    ": ",
                ).concat(e.as_str());
                self.fail(message)
            },
            (Stage::ReadingHash, LoadEvent::Hash(h)) => {
                if h != self.expected {
                    let message = String::from_str("IDL hash mismatch: spier=0x").concat(
                        hexadecimal(h).as_str(),
                    ).concat(", expected=0x").concat(hexadecimal(self.expected).as_str());
                    self.fail(message)
                } else {
                    self.stage = Stage::Finding(0);
                    LoadAction::Resolve(self.symbols[0].clone())
                }
            },
            (Stage::Finding(i), LoadEvent::Done) => {
                if i < self.symbols.len() - 1 {
                    self.stage = Stage::Finding(i + 1);
                    LoadAction::Resolve(self.symbols[i + 1].clone())
                } else {
                    self.stage = Stage::Ready;
                    LoadAction::Ready
                }
            },
            (Stage::Finding(i), LoadEvent::Error(e)) => {
                let message = String::from_str("symbol ").concat(self.symbols[i].as_str()).concat(
                    ": ",
                ).concat(e.as_str());
                self.fail(message)
            },
            _ => LoadAction::Wait,
        }
    }
}

/// Whether the hash has been checked in a stage.
pub open spec fn checked(s: Stage) -> bool {
    s is Finding || s is Ready
}

/// No symbol but the hash function is looked up, and nothing is ready, before
/// the library has been found to have the expected hash.
pub proof fn hash_is_checked_first(l: Loader, e: LoadEvent)
    requires
        !checked(l.stage),
        checked(stepped(l, e).0),
    ensures
        e == LoadEvent::Hash(l.expected),
        l.stage == Stage::ReadingHash,
{
}

/// A failed load stays failed.
pub proof fn failure_is_final(l: Loader, e: LoadEvent)
    requires
        l.stage == Stage::Failed,
    ensures
        stepped(l, e).0 == Stage::Failed,
{
}

/// A load becomes ready only when the last symbol has been found.
pub proof fn ready_after_last_symbol(l: Loader, e: LoadEvent)
    requires
        l.wf(),
        l.stage != Stage::Ready,
        stepped(l, e).0 == Stage::Ready,
    ensures
        l.stage == Stage::Finding((l.symbols@.len() - 1) as usize),
        e is Done,
{
}

/// The methods that an interface's descriptor lists.
pub fn method_configs(idl: &IdlDescriptor) -> (r: Vec<MethodConfig>)
    ensures
        r@.len() == idl.methods@.len(),
        forall|i: int| 0 <= i < r@.len() ==> (#[trigger] r@[i]).name == idl.methods@[i],
{
    let mut out: Vec<MethodConfig> = Vec::new();
    let mut i: usize = 0;
    while i < idl.methods.len()
        invariant
            i <= idl.methods.len(),
            out@.len() == i,
            forall|k: int| 0 <= k < i ==> (#[trigger] out@[k]).name == idl.methods@[k],
        decreases idl.methods.len() - i,
    {
        out.push(MethodConfig { name: idl.methods[i] });
        i = i + 1;
    }
    out
}

// ---------------------------------------------------------------------------
// Calls
// ---------------------------------------------------------------------------

/// Whether the spier has made a state.
pub fn check_created(null: bool) -> (r: Result<(), String>)
    ensures
        r is Err <==> null,
        r is Err ==> r->Err_0@ == "spier create returned null"@,
{
    if null {
        Err(String::from_str("spier create returned null"))
    } else {
        Ok(())
    }
}

/// Whether there is a method at `method` among `count`.
pub fn check_method(method: usize, count: usize) -> (r: Result<(), String>)
    ensures
        r is Ok <==> method < count,
        r is Err ==> r->Err_0@ == "unknown dispatch index: "@ + dec(method as nat),
{
    if method < count {
        Ok(())
    } else {
        Err(String::from_str("unknown dispatch index: ").concat(decimal(method as u64).as_str()))
    }
}

/// Whether a dispatch has gone through: its code is zero.
pub fn check_code(code: u8) -> (r: Result<(), String>)
    ensures
        r is Ok <==> code == 0,
        r is Err ==> r->Err_0@ == "dispatch transport error (code "@ + dec(code as nat) + ")"@,
{
    if code == 0 {
        Ok(())
    } else {
        Err(
            String::from_str("dispatch transport error (code ").concat(
                decimal(code as u64).as_str(),
            ).concat(")"),
        )
    }
}

} // verus!
