//! The command that runs in the sandbox, and the search path it runs with.

use crate::text;
use vstd::prelude::*;

verus! {

/// The shell that is run where neither a command nor a shell is given.
pub const DEFAULT_SHELL: &'static str = "/bin/bash";

/// The text where it is given, or else the other one.
pub open spec fn given_or(given: Option<Seq<char>>, other: Seq<char>) -> Seq<char> {
    match given {
        Some(text) => text,
        None => other,
    }
}

/// The search path: the extra shims, then the shims of the sandbox, then what
/// was there before.
pub open spec fn search_path_of(
    extra_shims: Seq<Seq<char>>,
    shims_dir: Seq<char>,
    system_path: Option<Seq<char>>,
) -> Seq<char> {
    text::joined(
        extra_shims + seq![
            shims_dir,
            given_or(system_path, Seq::empty()),
        ],
        ":"@,
    )
}

/// The command line: the command, or the shell where there is none.
pub open spec fn command_line_of(command: Seq<Seq<char>>, shell: Option<Seq<char>>) -> Seq<Seq<char>> {
    if command.len() == 0 {
        seq![given_or(shell, DEFAULT_SHELL@)]
    } else {
        command
    }
}

/// A copy of a vector of strings.
fn copied(v: &Vec<String>) -> (r: Vec<String>)
    ensures
        text::texts(r@) == text::texts(v@),
        r@.len() == v@.len(),
        forall|i: int| 0 <= i < v@.len() ==> (#[trigger] r@[i])@ == v@[i]@,
{
    let mut r: Vec<String> = Vec::new();
    let mut i: usize = 0;
    while i < v.len()
        invariant
            i <= v.len(),
            r.len() == i,
            forall|j: int| 0 <= j < i ==> (#[trigger] r[j])@ == v[j]@,
        decreases v.len() - i,
    {
        r.push(v[i].clone());
        i += 1;
    }
    assert(text::texts(r@) =~= text::texts(v@));
    r
}

/// Makes the search path.
pub fn search_path(
    extra_shims: &Vec<String>,
    shims_dir: &str,
    system_path: &Option<String>,
) -> (r: String)
    ensures
        r@ == search_path_of(text::texts(extra_shims@), shims_dir@, text::text_of(*system_path)),
        r@ == text::joined(
            text::texts(extra_shims@) + seq![
                shims_dir@,
                match *system_path {
                    Some(p) => p@,
                    None => Seq::empty(),
                },
            ],
            ":"@,
        ),
{
    let mut parts = copied(extra_shims);
    parts.push(shims_dir.to_owned());
    match system_path {
        Some(p) => parts.push(p.clone()),
        None => parts.push(String::new()),
    }
    assert(text::texts(parts@) =~= text::texts(extra_shims@) + seq![
        shims_dir@,
        given_or(text::text_of(*system_path), Seq::empty()),
    ]);
    assert(text::texts(parts@) =~= text::texts(extra_shims@) + seq![
        shims_dir@,
        match *system_path {
            Some(p) => p@,
            None => Seq::empty(),
        },
    ]);
    text::join(&parts, ":")
}

/// Makes the command line.
pub fn command_line(command: &Vec<String>, shell: &Option<String>) -> (r: Vec<String>)
    ensures
        text::texts(r@) == command_line_of(text::texts(command@), text::text_of(*shell)),
        command@.len() > 0 ==> r@.len() == command@.len(),
        command@.len() > 0 ==> forall|i: int|
            0 <= i < command@.len() ==> (#[trigger] r@[i])@ == command@[i]@,
        command@.len() == 0 ==> r@.len() == 1 && r@[0]@ == (match *shell {
            Some(s) => s@,
            None => "/bin/bash"@,
        }),
{
    if command.len() == 0 {
        let program = match shell {
            Some(s) => s.clone(),
            None => DEFAULT_SHELL.to_owned(),
        };
        let r: Vec<String> = vec![program];
        assert(text::texts(r@) =~= command_line_of(text::texts(command@), text::text_of(*shell)));
        r
    } else {
        copied(command)
    }
}

// ---------------------------------------------------------------------------
// Laws
// ---------------------------------------------------------------------------

/// Without extra shims the search path is the shims' directory, a colon and the
/// whole of what was there before. One more extra shim at the front comes with a
/// colon before the path that the others give. Where nothing was there before,
/// the path is the one of an empty text.
pub proof fn search_path_by_parts(
    first: Seq<char>,
    rest: Seq<Seq<char>>,
    shims_dir: Seq<char>,
    before: Seq<char>,
)
    ensures
        search_path_of(Seq::empty(), shims_dir, Some(before)) == shims_dir + ":"@ + before,
        search_path_of(seq![first] + rest, shims_dir, Some(before)) == first + ":"@ + search_path_of(
            rest,
            shims_dir,
            Some(before),
        ),
        search_path_of(rest, shims_dir, None) == search_path_of(
            rest,
            shims_dir,
            Some(Seq::empty()),
        ),
{
    let end = seq![shims_dir, before];
    assert(Seq::<Seq<char>>::empty() + end =~= seq![shims_dir] + seq![before]);
    text::joined_by_parts(shims_dir, seq![before], ":"@);
    text::joined_by_parts(before, Seq::empty(), ":"@);
    assert((seq![first] + rest) + end =~= seq![first] + (rest + end));
    text::joined_by_parts(first, rest + end, ":"@);
}

/// The whole of what was there before stands at the end of the search path,
/// behind a colon, and the shims' directory right before it, however many extra
/// shims there are.
pub proof fn search_path_ends_with_the_system(
    extra_shims: Seq<Seq<char>>,
    shims_dir: Seq<char>,
    before: Seq<char>,
)
    ensures
        ({
            let path = search_path_of(extra_shims, shims_dir, Some(before));
            let end = shims_dir + ":"@ + before;
            &&& path.len() >= end.len()
            &&& path.skip(path.len() - end.len()) == end
            &&& path.len() > end.len() <==> extra_shims.len() > 0
            &&& extra_shims.len() > 0 ==> path.take(path.len() - end.len()) == text::joined(
                extra_shims,
                ":"@,
            ) + ":"@
        }),
{
    reveal_strlit(":");
    search_order(extra_shims, shims_dir, Some(before));
    let path = search_path_of(extra_shims, shims_dir, Some(before));
    let end = shims_dir + ":"@ + before;
    assert(path.skip(path.len() - end.len()) =~= end);
    if extra_shims.len() > 0 {
        assert(path.take(path.len() - end.len()) =~= text::joined(extra_shims, ":"@) + ":"@);
    }
}

/// A command that is given is executed with all its arguments, each at its
/// position, whatever the shell is.
pub proof fn command_is_kept(command: Seq<Seq<char>>, shell: Option<Seq<char>>, i: int)
    requires
        command.len() > 0,
    ensures
        command_line_of(command, shell).len() == command.len(),
        0 <= i < command.len() ==> command_line_of(command, shell)[i] == command[i],
{
}

/// Where no command is given, the shell is executed without arguments, and where
/// there is no shell either, Bash.
pub proof fn shell_without_a_command(shell: Seq<char>)
    ensures
        command_line_of(Seq::empty(), Some(shell)) == seq![shell],
        command_line_of(Seq::empty(), None) == seq!["/bin/bash"@],
{
}

/// The extra shims come first in the search path, then the shims of the
/// sandbox, then what was there before.
pub proof fn search_order(
    extra_shims: Seq<Seq<char>>,
    shims_dir: Seq<char>,
    system_path: Option<Seq<char>>,
)
    ensures
        search_path_of(extra_shims, shims_dir, system_path) == (if extra_shims.len() == 0 {
            Seq::empty()
        } else {
            text::joined(extra_shims, ":"@) + ":"@
        }) + shims_dir + ":"@ + given_or(system_path, Seq::empty()),
{
    let before = given_or(system_path, Seq::empty());
    let with_shims = extra_shims.push(shims_dir);
    assert(extra_shims + seq![shims_dir, before] =~= with_shims.push(before));
    text::joined_with_one_more(with_shims, before, ":"@);
    if extra_shims.len() == 0 {
        assert(with_shims.skip(1) =~= Seq::<Seq<char>>::empty());
        assert(text::joined(with_shims, ":"@) =~= shims_dir);
    } else {
        text::joined_with_one_more(extra_shims, shims_dir, ":"@);
    }
    assert(search_path_of(extra_shims, shims_dir, system_path) =~= (if extra_shims.len() == 0 {
        Seq::empty()
    } else {
        text::joined(extra_shims, ":"@) + ":"@
    }) + shims_dir + ":"@ + before);
}

} // verus!
