use vstd::prelude::*;

use crate::json::Json;
use crate::pattern::{compile, find, regex_compiles, regex_finds, Matcher};
use crate::text::{base_name, command_name};

verus! {

/// The pattern that recognises Vim and Neovim (and their `view`, `diff`,
/// `g` and `x` variants) by command name.
pub const VIM_PATTERN: &'static str = "^g?(view|l?n?vim?x?)(diff)?$";

/// The characters of each string.
pub open spec fn texts(v: Seq<String>) -> Seq<Seq<char>> {
    v.map_values(|s: String| s@)
}

/// The command name under which the text member `key` of a process is
/// known, if it has one.
pub open spec fn named_identity(process: Json, key: Seq<char>) -> Seq<Seq<char>> {
    match process.field(key) {
        Some(v) => match v.text() {
            Some(s) => seq![command_name(s)],
            None => Seq::empty(),
        },
        None => Seq::empty(),
    }
}

/// The command name of the first argument vector entry, where that is a text.
pub open spec fn argv_identity(process: Json) -> Seq<Seq<char>> {
    match process.field("argv"@) {
        Some(argv) => match argv.element(0) {
            Some(v) => match v.text() {
                Some(s) => seq![command_name(s)],
                None => Seq::empty(),
            },
            None => Seq::empty(),
        },
        None => Seq::empty(),
    }
}

/// Every name a foreground process goes by: its `name`, its `argv0` and its
/// `argv[0]`, each reduced to a command name, in that order.
pub open spec fn identities_of(process: Json) -> Seq<Seq<char>> {
    named_identity(process, "name"@) + named_identity(process, "argv0"@) + argv_identity(
        process,
    )
}

/// Whether `pattern` matches one of the names of a process.
pub open spec fn identity_matches(pattern: Seq<char>, process: Json) -> bool {
    exists|i: int|
        0 <= i < identities_of(process).len() && regex_finds(
            pattern,
            #[trigger] identities_of(process)[i],
        )
}

/// The command name of the text member `key`, pushed onto `out`.
fn push_named(process: &Json, key: &str, out: &mut Vec<String>)
    ensures
        texts(final(out)@) == texts(old(out)@) + named_identity(*process, key@),
{
    let ghost before = texts(out@);
    match process.get(key) {
        Some(v) => match v.as_str() {
            Some(s) => {
                out.push(base_name(s));
                proof {
                    assert(texts(out@) =~= before + named_identity(*process, key@));
                }
            },
            None => {
                assert(texts(out@) =~= before + named_identity(*process, key@));
            },
        },
        None => {
            assert(texts(out@) =~= before + named_identity(*process, key@));
        },
    }
}

/// The names under which a foreground process is matched.
pub fn identities(process: &Json) -> (r: Vec<String>)
    ensures
        texts(r@) == identities_of(*process),
{
    let mut out: Vec<String> = Vec::new();
    push_named(process, "name", &mut out);
    push_named(process, "argv0", &mut out);
    let ghost before = texts(out@);
    match process.get("argv") {
        Some(argv) => match argv.index(0) {
            Some(first) => match first.as_str() {
                Some(s) => {
                    out.push(base_name(s));
                },
                None => {},
            },
            None => {},
        },
        None => {},
    }
    proof {
        assert(texts(out@) =~= before + argv_identity(*process));
        assert(texts(Seq::<String>::empty()) =~= Seq::<Seq<char>>::empty());
        assert(identities_of(*process) =~= Seq::<Seq<char>>::empty() + named_identity(
            *process,
            "name"@,
        ) + named_identity(*process, "argv0"@) + argv_identity(*process));
    }
    out
}

/// Whether the matcher finds its pattern in one of `names`.
fn any_found(m: &Matcher, names: &Vec<String>) -> (r: bool)
    ensures
        r == exists|i: int| 0 <= i < names@.len() && regex_finds(m.pattern(), #[trigger] names@[i]@),
{
    let n = names.len();
    let mut i: usize = 0;
    while i < n
        invariant
            n == names@.len(),
            i <= n,
            forall|k: int| 0 <= k < i ==> !regex_finds(m.pattern(), #[trigger] names@[k]@),
        decreases n - i,
    {
        if find(m, names[i].as_str()) {
            return true;
        }
        i = i + 1;
    }
    false
}

/// Whether `pattern` matches one of the names of `process`, given the matcher
/// compiled from it.
fn process_found(m: &Matcher, process: &Json) -> (r: bool)
    ensures
        r == identity_matches(m.pattern(), *process),
{
    let names = identities(process);
    let r = any_found(m, &names);
    proof {
        let ids = identities_of(*process);
        assert(texts(names@).len() == names@.len());
        if r {
            let i = choose|i: int| 0 <= i < names@.len() && regex_finds(m.pattern(), #[trigger] names@[i]@);
            assert(ids[i] == names@[i]@);
        }
        if identity_matches(m.pattern(), *process) {
            let i = choose|i: int| 0 <= i < ids.len() && regex_finds(m.pattern(), #[trigger] ids[i]);
            assert(ids[i] == names@[i]@);
        }
    }
    r
}

/// The matcher that recognises Vim by name.
pub fn vim_re() -> (r: Option<Matcher>)
    ensures
        r is Some <==> regex_compiles(VIM_PATTERN@),
        r matches Some(m) ==> m.pattern() == VIM_PATTERN@,
{
    compile(VIM_PATTERN)
}

/// Whether a foreground process is Vim or Neovim: one of its names matches
/// the Vim pattern.
pub fn is_vim(process: &Json) -> (r: bool)
    ensures
        r == (regex_compiles(VIM_PATTERN@) && identity_matches(VIM_PATTERN@, *process)),
{
    match vim_re() {
        Some(m) => process_found(&m, process),
        None => false,
    }
}

/// Whether a foreground process owns the navigation keys by the user's
/// pattern: never for an empty pattern or one that does not compile.
pub fn is_passthrough_with(process: &Json, pattern: &str) -> (r: bool)
    ensures
        r == (pattern@.len() > 0 && regex_compiles(pattern@) && identity_matches(
            pattern@,
            *process,
        )),
{
    if pattern.is_empty() {
        return false;
    }
    match compile(pattern) {
        Some(m) => process_found(&m, process),
        None => false,
    }
}

/// Every name a process goes by is matched: the command names of its
/// `name`, of its `argv0` and of the first entry of `argv`, each where it is
/// a text, and no other.
pub proof fn law_identities_cover(process: Json)
    ensures
        (match process.field("name"@) {
            Some(v) => match v.text() {
                Some(s) => identities_of(process).contains(command_name(s)),
                None => true,
            },
            None => true,
        }),
        (match process.field("argv0"@) {
            Some(v) => match v.text() {
                Some(s) => identities_of(process).contains(command_name(s)),
                None => true,
            },
            None => true,
        }),
        (match process.field("argv"@) {
            Some(a) => match a.element(0) {
                Some(v) => match v.text() {
                    Some(s) => identities_of(process).contains(command_name(s)),
                    None => true,
                },
                None => true,
            },
            None => true,
        }),
        identities_of(process).len() <= 3,
{
    let a = named_identity(process, "name"@);
    let b = named_identity(process, "argv0"@);
    let c = argv_identity(process);
    let ids = identities_of(process);
    assert(ids == a + b + c);
    if a.len() == 1 {
        assert(ids[0] == a[0]);
    }
    if b.len() == 1 {
        assert(ids[a.len() as int] == b[0]);
    }
    if c.len() == 1 {
        assert(ids[(a.len() + b.len()) as int] == c[0]);
    }
}

} // verus!
