use vstd::prelude::*;

verus! {

/// Whether two string slices hold the same characters.
pub fn same_text(a: &str, b: &str) -> (r: bool)
    ensures
        r == (a@ == b@),
{
    let x = a.to_owned();
    let y = b.to_owned();
    x == y
}

/// The characters that separate the components of a command's path.
pub open spec fn is_separator(c: char) -> bool {
    c == '/' || c == '\\'
}

/// What follows the last separator of `s`: the whole of `s` where it holds none.
pub open spec fn last_component(s: Seq<char>) -> Seq<char>
    decreases s.len(),
{
    if s.len() == 0 {
        s
    } else if is_separator(s.last()) {
        Seq::empty()
    } else {
        last_component(s.drop_last()).push(s.last())
    }
}

/// The lower-case form of a text, as the standard library computes it.
pub uninterp spec fn lowercase(s: Seq<char>) -> Seq<char>;

/// The name by which a command is recognised: its last path component, in
/// lower case.
pub open spec fn command_name(command: Seq<char>) -> Seq<char> {
    lowercase(last_component(command))
}

/// `str::to_lowercase` of the standard library. Claimed: the result is the
/// lower-case form of the argument, a function of its characters alone
/// (named, not stated: the Unicode case tables are not written out here).
#[verifier::external_body]
pub(crate) fn to_lowercase(s: &str) -> (r: String)
    ensures
        r@ == lowercase(s@),
{
    s.to_lowercase()
}

fn separator(c: char) -> (r: bool)
    ensures
        r == is_separator(c),
{
    c == '/' || c == '\\'
}

proof fn lemma_last_component_is_suffix(s: Seq<char>, i: int)
    requires
        0 <= i <= s.len(),
        forall|k: int| i <= k < s.len() ==> !is_separator(#[trigger] s[k]),
        i == 0 || is_separator(s[i - 1]),
    ensures
        last_component(s) == s.subrange(i, s.len() as int),
    decreases s.len(),
{
    if s.len() == i {
        assert(s.subrange(i, i) =~= Seq::<char>::empty());
        if i > 0 {
            assert(s.last() == s[i - 1]);
        }
    } else {
        lemma_last_component_is_suffix(s.drop_last(), i);
        assert(s.drop_last().subrange(i, s.len() - 1).push(s.last()) =~= s.subrange(
            i,
            s.len() as int,
        ));
    }
}

/// The last component of a command's path, in lower case: the name under
/// which a process is matched.
pub fn base_name(command: &str) -> (r: String)
    ensures
        r@ == command_name(command@),
{
    let n = command.unicode_len();
    let mut i = n;
    while i > 0 && !separator(command.get_char(i - 1))
        invariant
            n == command@.len(),
            i <= n,
            forall|k: int| i <= k < n ==> !is_separator(#[trigger] command@[k]),
        decreases i,
    {
        i = i - 1;
    }
    proof {
        lemma_last_component_is_suffix(command@, i as int);
    }
    let last = command.substring_char(i, n);
    to_lowercase(last)
}

/// A command's name does not depend on the directories in front of it: the
/// name of `dir/cmd` (with either separator) is the name of `cmd`.
pub proof fn law_name_ignores_directories(dir: Seq<char>, sep: char, cmd: Seq<char>)
    requires
        is_separator(sep),
    ensures
        command_name(dir + seq![sep] + cmd) == command_name(cmd),
{
    lemma_component_after_separator(dir, sep, cmd);
}

proof fn lemma_component_after_separator(dir: Seq<char>, sep: char, cmd: Seq<char>)
    requires
        is_separator(sep),
    ensures
        last_component(dir + seq![sep] + cmd) == last_component(cmd),
    decreases cmd.len(),
{
    let whole = dir + seq![sep] + cmd;
    if cmd.len() == 0 {
        assert(whole =~= dir + seq![sep]);
        assert(whole.last() == sep);
        assert(last_component(cmd) =~= Seq::<char>::empty());
    } else {
        lemma_component_after_separator(dir, sep, cmd.drop_last());
        assert(whole.drop_last() =~= dir + seq![sep] + cmd.drop_last());
        assert(whole.last() == cmd.last());
    }
}

} // verus!
