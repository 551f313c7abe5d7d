//! Arguments and path rules of the class-path wrapper, which mounts
//! package-owned APEX inputs before Android derives its boot class path.

use vstd::prelude::*;

use crate::launcher::commands::string_views;
use crate::text::{
    alphanumeric, append, chars_of, is_alphanumeric, same, text_of, views,
};

verus! {

/// Replacement of one APEX file.
#[derive(Clone, Debug, PartialEq, Eq)]
pub struct FileOverride {
    /// File to mount.
    pub source: String,
    /// APEX file that it replaces.
    pub target: String,
}

/// What the wrapper mounts.
#[derive(Clone, Debug, PartialEq, Eq)]
pub struct Config {
    /// Directory to mount as a module.
    pub projection: String,
    /// Name of the module.
    pub module: String,
    /// Files to mount over files of APEX modules.
    pub file_overrides: Vec<FileOverride>,
}

/// Contents of a [`Config`].
#[verifier::ext_equal]
pub struct ConfigView {
    pub projection: Seq<char>,
    pub module: Seq<char>,
    pub overrides: Seq<(Seq<char>, Seq<char>)>,
}

/// Contents of a list of overrides.
pub open spec fn override_views(list: Seq<FileOverride>) -> Seq<(Seq<char>, Seq<char>)> {
    list.map_values(|entry: FileOverride| (entry.source@, entry.target@))
}

impl View for Config {
    type V = ConfigView;

    open spec fn view(&self) -> ConfigView {
        ConfigView {
            projection: self.projection@,
            module: self.module@,
            overrides: override_views(self.file_overrides@),
        }
    }
}

/// Finished names and the name in progress at the end of a path.
pub open spec fn name_scan(path: Seq<char>) -> (Seq<Seq<char>>, Seq<char>)
    decreases path.len(),
{
    if path.len() == 0 {
        (Seq::empty(), Seq::empty())
    } else {
        let (names, current) = name_scan(path.drop_last());
        if path.last() != '/' {
            (names, current.push(path.last()))
        } else {
            (with_name(names, current), Seq::empty())
        }
    }
}

/// A name more, unless it is empty or stands for the directory itself.
pub open spec fn with_name(names: Seq<Seq<char>>, name: Seq<char>) -> Seq<Seq<char>> {
    if name.len() == 0 || name == "."@ {
        names
    } else {
        names.push(name)
    }
}

/// Names in a path: what stands between its slashes, without empty names and
/// names for the same directory.
pub open spec fn names(path: Seq<char>) -> Seq<Seq<char>> {
    with_name(name_scan(path).0, name_scan(path).1)
}

/// Whether a path is absolute and goes up nowhere.
pub open spec fn normal_absolute(path: Seq<char>) -> bool {
    &&& path.len() > 0
    &&& path[0] == '/'
    &&& !names(path).contains(".."@)
}

/// Whether a normal absolute path is a root directory or below it.
pub open spec fn within(path: Seq<char>, root: Seq<char>) -> bool {
    normal_absolute(path) && names(path).len() > 0 && names(path)[0] == root
}

/// Whether a normal absolute path is strictly below a root directory.
pub open spec fn below(path: Seq<char>, root: Seq<char>) -> bool {
    within(path, root) && names(path).len() > 1
}

/// Whether two absolute paths have the same names.
pub open spec fn same_path(first: Seq<char>, second: Seq<char>) -> bool {
    &&& (first.len() > 0 && first[0] == '/') == (second.len() > 0 && second[0] == '/')
    &&& names(first) == names(second)
}

fn add_name(list: &mut Vec<Vec<char>>, name: Vec<char>)
    ensures
        views(final(list)@) == with_name(views(old(list)@), name@),
{
    let here = chars_of(".");
    if name.len() > 0 && !same(&name, &here) {
        list.push(name);
        assert(views(list@) =~= views(old(list)@).push(name@));
    }
}

fn split_names(path: &Vec<char>) -> (list: Vec<Vec<char>>)
    ensures
        views(list@) == names(path@),
{
    let mut list: Vec<Vec<char>> = Vec::new();
    let mut current: Vec<char> = Vec::new();
    let mut index: usize = 0;
    assert(views(list@) =~= Seq::empty());
    assert(path@.take(0) =~= Seq::empty());
    while index < path.len()
        invariant
            index <= path@.len(),
            (views(list@), current@) == name_scan(path@.take(index as int)),
        decreases path@.len() - index,
    {
        let character: char = path[index];
        proof {
            assert(path@.take(index + 1).drop_last() =~= path@.take(index as int));
            assert(path@.take(index + 1).last() == character);
        }
        if character != '/' {
            current.push(character);
        } else {
            add_name(&mut list, current);
            current = Vec::new();
        }
        index = index + 1;
    }
    assert(path@.take(index as int) =~= path@);
    add_name(&mut list, current);
    list
}

/// Whether a path is absolute and goes up nowhere.
pub fn is_normal_absolute(path: &str) -> (yes: bool)
    ensures
        yes == normal_absolute(path@),
{
    let characters = chars_of(path);
    if characters.len() == 0 || characters[0] != '/' {
        return false;
    }
    !crate::text::any_is(&split_names(&characters), "..")
}

fn first_name_is(path: &str, root: &str) -> (found: (bool, usize))
    ensures
        found.0 == (names(path@).len() > 0 && names(path@)[0] == root@),
        found.1 == names(path@).len(),
{
    let list = split_names(&chars_of(path));
    let length: usize = list.len();
    if length == 0 {
        return (false, length);
    }
    assert(views(list@)[0] == list@[0]@);
    (same(&list[0], &chars_of(root)), length)
}

/// Whether a path is a root directory or below it.
pub fn is_within(path: &str, root: &str) -> (yes: bool)
    ensures
        yes == within(path@, root@),
{
    is_normal_absolute(path) && first_name_is(path, root).0
}

/// Whether a path is strictly below a root directory.
pub fn is_below(path: &str, root: &str) -> (yes: bool)
    ensures
        yes == below(path@, root@),
{
    let (inside, count) = first_name_is(path, root);
    is_normal_absolute(path) && inside && count > 1
}

/// How the wrapper is called.
pub open spec fn usage_text() -> Seq<char> {
    "usage: droidloom-classpath-wrapper PROJECTION APEX_MODULE [--file-override SOURCE TARGET]..."@
}

fn usage() -> (text: String)
    ensures
        text@ == usage_text(),
{
    "usage: droidloom-classpath-wrapper PROJECTION APEX_MODULE [--file-override SOURCE TARGET]...".to_owned()
}

/// Whether a module has a plain name.
pub open spec fn module_name(module: Seq<char>) -> bool {
    &&& module.len() > 0
    &&& forall|i: int|
        0 <= i < module.len() ==> {
            ||| alphanumeric(#[trigger] module[i])
            ||| module[i] == '.'
            ||| module[i] == '_'
            ||| module[i] == '-'
        }
}

fn is_module_name(module: &str) -> (yes: bool)
    ensures
        yes == module_name(module@),
{
    let characters = chars_of(module);
    let mut index: usize = 0;
    while index < characters.len()
        invariant
            index <= characters@.len(),
            characters@ == module@,
            forall|i: int|
                0 <= i < index ==> {
                    ||| alphanumeric(#[trigger] module@[i])
                    ||| module@[i] == '.'
                    ||| module@[i] == '_'
                    ||| module@[i] == '-'
                },
        decreases characters@.len() - index,
    {
        let character: char = characters[index];
        if !(is_alphanumeric(character) || character == '.' || character == '_' || character
            == '-') {
            assert(!alphanumeric(module@[index as int]));
            return false;
        }
        index = index + 1;
    }
    characters.len() > 0
}

/// Overrides that the arguments from `at` on name, after some others.
pub open spec fn parse_overrides(
    arguments: Seq<Seq<char>>,
    at: int,
    overrides: Seq<(Seq<char>, Seq<char>)>,
) -> Result<Seq<(Seq<char>, Seq<char>)>, Seq<char>>
    decreases arguments.len() - at,
{
    if at < 0 || at >= arguments.len() {
        Ok(overrides)
    } else if arguments[at] != "--file-override"@ || at + 2 >= arguments.len() {
        Err(usage_text())
    } else if !below(arguments[at + 1], "droidloom"@) {
        Err("file override source must be a normalized absolute path below /droidloom"@)
    } else if !below(arguments[at + 2], "apex"@) {
        Err("file override target must be a normalized absolute path below /apex"@)
    } else {
        parse_overrides(
            arguments,
            at + 3,
            overrides.push((arguments[at + 1], arguments[at + 2])),
        )
    }
}

/// Configuration that some arguments name.
pub open spec fn parsed(arguments: Seq<Seq<char>>) -> Result<ConfigView, Seq<char>> {
    if arguments.len() < 2 {
        Err(usage_text())
    } else if !within(arguments[0], "droidloom"@) {
        Err("projection must be a normalized absolute path below /droidloom"@)
    } else if !module_name(arguments[1]) {
        Err("module must contain only ASCII letters, digits, '.', '_' or '-'"@)
    } else {
        match parse_overrides(arguments, 2, Seq::empty()) {
            Ok(overrides) => Ok(
                ConfigView { projection: arguments[0], module: arguments[1], overrides },
            ),
            Err(message) => Err(message),
        }
    }
}

/// Contents of a parse result.
pub open spec fn config_view(result: Result<Config, String>) -> Result<ConfigView, Seq<char>> {
    match result {
        Ok(config) => Ok(config@),
        Err(message) => Err(message@),
    }
}

/// Read the arguments of the wrapper.
pub fn parse_arguments(arguments: &Vec<String>) -> (result: Result<Config, String>)
    ensures
        config_view(result) == parsed(string_views(arguments@)),
{
    let length: usize = arguments.len();
    let ghost all = string_views(arguments@);
    if length < 2 {
        return Err(usage());
    }
    assert(all[0] == arguments@[0]@);
    assert(all[1] == arguments@[1]@);
    let projection = arguments[0].clone();
    let module = arguments[1].clone();
    if !is_within(projection.as_str(), "droidloom") {
        return Err("projection must be a normalized absolute path below /droidloom".to_owned());
    }
    if !is_module_name(module.as_str()) {
        return Err(
            "module must contain only ASCII letters, digits, '.', '_' or '-'".to_owned(),
        );
    }
    let flag = chars_of("--file-override");
    let mut file_overrides: Vec<FileOverride> = Vec::new();
    let mut index: usize = 2;
    assert(override_views(file_overrides@) =~= Seq::empty());
    while index < length
        invariant
            2 <= index,
            index <= length == arguments@.len(),
            all == string_views(arguments@),
            flag@ == "--file-override"@,
            parse_overrides(all, 2, Seq::empty()) == parse_overrides(
                all,
                index as int,
                override_views(file_overrides@),
            ),
            within(all[0], "droidloom"@),
            module_name(all[1]),
        decreases length - index,
    {
        assert(all[index as int] == arguments@[index as int]@);
        if !same(&chars_of(arguments[index].as_str()), &flag) || length - index < 3 {
            return Err(usage());
        }
        assert(all[index + 1] == arguments@[index + 1]@);
        assert(all[index + 2] == arguments@[index + 2]@);
        let source = arguments[index + 1].clone();
        let target = arguments[index + 2].clone();
        if !is_below(source.as_str(), "droidloom") {
            return Err(
                "file override source must be a normalized absolute path below /droidloom".to_owned(),
            );
        }
        if !is_below(target.as_str(), "apex") {
            return Err(
                "file override target must be a normalized absolute path below /apex".to_owned(),
            );
        }
        let ghost before = override_views(file_overrides@);
        file_overrides.push(FileOverride { source, target });
        assert(override_views(file_overrides@) =~= before.push((all[index + 1], all[index + 2])));
        index = index + 3;
    }
    Ok(Config { projection, module, file_overrides })
}

/// Where a module is mounted.
pub fn module_directory(module: &str) -> (directory: String)
    ensures
        directory@ == "/apex/"@ + module@,
{
    let mut directory = chars_of("/apex/");
    append(&mut directory, module);
    text_of(&directory)
}

/// Sources and targets of the mounts, in order: the projection as its module,
/// then each file.
pub open spec fn mount_views(
    projection: Seq<char>,
    module: Seq<char>,
    overrides: Seq<(Seq<char>, Seq<char>)>,
) -> Seq<(Seq<char>, Seq<char>)> {
    seq![(projection, "/apex/"@ + module)] + overrides
}

/// Mounts to make, in order, once the projection and every override are
/// resolved and checked: a malformed override must not leave a partial class
/// path behind.
pub fn mounts(projection: &str, module: &str, overrides: &Vec<FileOverride>) -> (mounts: Vec<
    FileOverride,
>)
    ensures
        override_views(mounts@) == mount_views(projection@, module@, override_views(overrides@)),
{
    let mut mounts: Vec<FileOverride> = Vec::new();
    mounts.push(FileOverride { source: projection.to_owned(), target: module_directory(module) });
    let ghost first = seq![(projection@, "/apex/"@ + module@)];
    let ghost rest = override_views(overrides@);
    let mut index: usize = 0;
    assert(override_views(mounts@) =~= first + rest.take(0));
    while index < overrides.len()
        invariant
            index <= overrides@.len(),
            rest == override_views(overrides@),
            override_views(mounts@) == first + rest.take(index as int),
        decreases overrides@.len() - index,
    {
        let ghost before = override_views(mounts@);
        mounts.push(
            FileOverride {
                source: overrides[index].source.clone(),
                target: overrides[index].target.clone(),
            },
        );
        proof {
            assert(override_views(mounts@) =~= before.push(rest[index as int]));
            assert(first + rest.take(index + 1) =~= (first + rest.take(index as int)).push(
                rest[index as int],
            ));
        }
        index = index + 1;
    }
    assert(rest.take(index as int) =~= rest);
    mounts
}

/// Whether two paths have the same names.
pub fn is_same_path(first: &str, second: &str) -> (same_names: bool)
    ensures
        same_names == same_path(first@, second@),
{
    let one = chars_of(first);
    let other = chars_of(second);
    let rooted: bool = one.len() > 0 && one[0] == '/';
    let also: bool = other.len() > 0 && other[0] == '/';
    if rooted != also {
        return false;
    }
    let left = split_names(&one);
    let right = split_names(&other);
    if left.len() != right.len() {
        assert(views(left@).len() != views(right@).len());
        return false;
    }
    let mut index: usize = 0;
    while index < left.len()
        invariant
            index <= left@.len() == right@.len(),
            views(left@) == names(first@),
            views(right@) == names(second@),
            forall|i: int| 0 <= i < index ==> #[trigger] views(left@)[i] == views(right@)[i],
        decreases left@.len() - index,
    {
        if !same(&left[index], &right[index]) {
            assert(views(left@)[index as int] != views(right@)[index as int]);
            return false;
        }
        assert(views(left@)[index as int] == views(right@)[index as int]);
        index = index + 1;
    }
    assert(views(left@) =~= views(right@));
    true
}

fn sentence(lead: &str, path: &str, end: &str) -> (text: String)
    ensures
        text@ == lead@ + path@ + end@,
{
    let mut characters = chars_of(lead);
    append(&mut characters, path);
    append(&mut characters, end);
    text_of(&characters)
}

/// Outcome of a check that fails with a message.
pub open spec fn refused(result: Result<(), String>, message: Option<Seq<char>>) -> bool {
    match message {
        Some(message) => result is Err && result->Err_0@ == message,
        None => result == Ok::<(), String>(()),
    }
}

/// First reason not to mount a projection.
pub open spec fn projection_error(declared: Seq<char>, resolved: Seq<char>, directory: bool) -> Option<
    Seq<char>,
> {
    if !same_path(resolved, declared) {
        Some("projection "@ + declared + " resolves outside its declared path"@)
    } else if !directory {
        Some(""@ + resolved + " is not a directory"@)
    } else {
        None
    }
}

/// Check a projection after its path was resolved: it must be the directory
/// that it was declared as.
pub fn check_projection(declared: &str, resolved: &str, directory: bool) -> (result: Result<
    (),
    String,
>)
    ensures
        refused(result, projection_error(declared@, resolved@, directory)),
{
    if !is_same_path(resolved, declared) {
        return Err(sentence("projection ", declared, " resolves outside its declared path"));
    }
    if !directory {
        return Err(sentence("", resolved, " is not a directory"));
    }
    Ok(())
}

/// First reason not to mount a file source.
pub open spec fn source_error(declared: Seq<char>, resolved: Seq<char>, file: bool) -> Option<
    Seq<char>,
> {
    if !same_path(resolved, declared) {
        Some("file override source "@ + declared + " resolves outside its declared path"@)
    } else if !file {
        Some(""@ + resolved + " is not a regular file"@)
    } else {
        None
    }
}

/// Check the source of an override after its path was resolved.
pub fn check_source(declared: &str, resolved: &str, file: bool) -> (result: Result<(), String>)
    ensures
        refused(result, source_error(declared@, resolved@, file)),
{
    if !is_same_path(resolved, declared) {
        return Err(
            sentence("file override source ", declared, " resolves outside its declared path"),
        );
    }
    if !file {
        return Err(sentence("", resolved, " is not a regular file"));
    }
    Ok(())
}

/// First reason not to mount over a file.
pub open spec fn target_error(declared: Seq<char>, resolved: Seq<char>, file: bool) -> Option<
    Seq<char>,
> {
    if !below(resolved, "apex"@) {
        Some("file override target "@ + declared + " resolves outside /apex"@)
    } else if !file {
        Some(""@ + declared + " is not a regular file"@)
    } else {
        None
    }
}

/// Check the target of an override after its path was resolved.
pub fn check_target(declared: &str, resolved: &str, file: bool) -> (result: Result<(), String>)
    ensures
        refused(result, target_error(declared@, resolved@, file)),
{
    if !is_below(resolved, "apex") {
        return Err(sentence("file override target ", declared, " resolves outside /apex"));
    }
    if !file {
        return Err(sentence("", declared, " is not a regular file"));
    }
    Ok(())
}

/// Whatever the arguments, an accepted configuration mounts only from below
/// `/droidloom`, and files only over files below `/apex`.
pub proof fn law_configuration_is_bounded(arguments: Seq<Seq<char>>)
    requires
        parsed(arguments) is Ok,
    ensures
        within(parsed(arguments)->Ok_0.projection, "droidloom"@),
        module_name(parsed(arguments)->Ok_0.module),
        forall|i: int|
            0 <= i < parsed(arguments)->Ok_0.overrides.len() ==> {
                &&& below((#[trigger] parsed(arguments)->Ok_0.overrides[i]).0, "droidloom"@)
                &&& below(parsed(arguments)->Ok_0.overrides[i].1, "apex"@)
            },
{
    lemma_overrides_bounded(arguments, 2, Seq::empty());
}

proof fn lemma_overrides_bounded(
    arguments: Seq<Seq<char>>,
    at: int,
    overrides: Seq<(Seq<char>, Seq<char>)>,
)
    requires
        forall|i: int|
            0 <= i < overrides.len() ==> below((#[trigger] overrides[i]).0, "droidloom"@) && below(
                overrides[i].1,
                "apex"@,
            ),
    ensures
        parse_overrides(arguments, at, overrides) matches Ok(all) ==> forall|i: int|
            0 <= i < all.len() ==> below((#[trigger] all[i]).0, "droidloom"@) && below(
                all[i].1,
                "apex"@,
            ),
    decreases arguments.len() - at,
{
    if 0 <= at && at + 2 < arguments.len() && below(arguments[at + 1], "droidloom"@) && below(
        arguments[at + 2],
        "apex"@,
    ) {
        lemma_overrides_bounded(
            arguments,
            at + 3,
            overrides.push((arguments[at + 1], arguments[at + 2])),
        );
    }
}

/// Law: the names of a path stand between its slashes; empty names and the name
/// of the same place are left out.
pub proof fn law_names_stand_between_slashes(path: Seq<char>, name: Seq<char>)
    requires
        forall|i: int| 0 <= i < name.len() ==> #[trigger] name[i] != '/',
    ensures
        names(Seq::empty()) == Seq::<Seq<char>>::empty(),
        names(path.push('/')) == names(path),
        name.len() > 0 && name != "."@ ==> names(path.push('/') + name) == names(path).push(name),
        name == "."@ ==> names(path.push('/') + name) == names(path),
{
    let open = path.push('/');
    assert(open.drop_last() =~= path);
    lemma_scan_name(open, name);
    assert(name_scan(open).1 == Seq::<char>::empty());
    assert(Seq::<char>::empty() + name =~= name);
}

proof fn lemma_scan_name(path: Seq<char>, name: Seq<char>)
    requires
        forall|i: int| 0 <= i < name.len() ==> #[trigger] name[i] != '/',
    ensures
        name_scan(path + name) == (name_scan(path).0, name_scan(path).1 + name),
    decreases name.len(),
{
    if name.len() == 0 {
        assert(path + name =~= path);
        assert(name_scan(path).1 + name =~= name_scan(path).1);
    } else {
        let shorter = name.drop_last();
        lemma_scan_name(path, shorter);
        assert((path + name).drop_last() =~= path + shorter);
        assert(name[name.len() - 1] != '/');
        assert(name_scan(path).1 + name =~= (name_scan(path).1 + shorter).push(name.last()));
    }
}

/// Law: a path lies within a root when it starts with a slash, never goes up and
/// has that root as its first name; it lies below it when another name follows.
pub proof fn law_paths_lie_below_their_root(path: Seq<char>, root: Seq<char>, i: int)
    ensures
        within(path, root) ==> {
            &&& path.len() > 0 && path[0] == '/'
            &&& names(path).len() > 0 && names(path)[0] == root
            &&& 0 <= i < names(path).len() ==> names(path)[i] != ".."@
        },
        path.len() > 0 && path[0] == '/' && names(path).len() > 0 && names(path)[0] == root
            && !names(path).contains(".."@) ==> within(path, root),
        below(path, root) <==> within(path, root) && names(path).len() >= 2,
{
    if 0 <= i < names(path).len() {
        assert(names(path).contains(names(path)[i]));
    }
}

/// Law: two paths are the same when both or neither start at the root and their
/// names agree.
pub proof fn law_same_paths_have_the_same_names(first: Seq<char>, second: Seq<char>)
    ensures
        same_path(first, first),
        same_path(first, second) == same_path(second, first),
        same_path(first, second) ==> names(first) == names(second),
        first.len() > 0 && second.len() > 0 && first[0] == '/' && second[0] != '/' ==> !same_path(
            first,
            second,
        ),
        first.len() > 0 && first[0] == '/' ==> same_path(first, first.push('/')),
{
    assert(first.push('/').drop_last() =~= first);
}

/// Law: an accepted command line is the projection, the module and then the
/// overrides, each as the option, its source and its target, in order.
pub proof fn law_arguments_are_read_in_order(arguments: Seq<Seq<char>>, i: int)
    requires
        parsed(arguments) is Ok,
    ensures
        ({
            let config = parsed(arguments)->Ok_0;
            &&& arguments.len() == 2 + 3 * config.overrides.len()
            &&& config.projection == arguments[0]
            &&& config.module == arguments[1]
            &&& 0 <= i < config.overrides.len() ==> {
                &&& arguments[2 + 3 * i] == "--file-override"@
                &&& config.overrides[i].0 == arguments[3 + 3 * i]
                &&& config.overrides[i].1 == arguments[4 + 3 * i]
            }
        }),
{
    lemma_overrides_in_order(arguments, 2, Seq::empty(), i);
}

proof fn lemma_overrides_in_order(
    arguments: Seq<Seq<char>>,
    at: int,
    overrides: Seq<(Seq<char>, Seq<char>)>,
    i: int,
)
    requires
        2 <= at <= arguments.len(),
        at == 2 + 3 * overrides.len(),
        0 <= i < overrides.len() ==> {
            &&& arguments[2 + 3 * i] == "--file-override"@
            &&& overrides[i].0 == arguments[3 + 3 * i]
            &&& overrides[i].1 == arguments[4 + 3 * i]
        },
    ensures
        parse_overrides(arguments, at, overrides) matches Ok(all) ==> {
            &&& arguments.len() == 2 + 3 * all.len()
            &&& 0 <= i < all.len() ==> {
                &&& arguments[2 + 3 * i] == "--file-override"@
                &&& all[i].0 == arguments[3 + 3 * i]
                &&& all[i].1 == arguments[4 + 3 * i]
            }
        },
    decreases arguments.len() - at,
{
    if at + 2 < arguments.len() && arguments[at] == "--file-override"@ && below(
        arguments[at + 1],
        "droidloom"@,
    ) && below(arguments[at + 2], "apex"@) {
        lemma_overrides_in_order(
            arguments,
            at + 3,
            overrides.push((arguments[at + 1], arguments[at + 2])),
            i,
        );
    }
}

/// Law: the projection is mounted over its module below `/apex`, and then each
/// source over its own target.
pub proof fn law_mounts_start_with_the_projection(
    projection: Seq<char>,
    module: Seq<char>,
    overrides: Seq<(Seq<char>, Seq<char>)>,
    i: int,
)
    ensures
        mount_views(projection, module, overrides).len() == 1 + overrides.len(),
        mount_views(projection, module, overrides)[0].0 == projection,
        mount_views(projection, module, overrides)[0].1 == "/apex/"@ + module,
        0 <= i < overrides.len() ==> mount_views(projection, module, overrides)[1 + i]
            == overrides[i],
{
}

/// Law: what a declared path resolves to is refused when it is another place or
/// not of the kind that was asked for.
pub proof fn law_resolved_paths_are_where_they_were_declared(
    declared: Seq<char>,
    resolved: Seq<char>,
    fitting: bool,
)
    ensures
        projection_error(declared, resolved, fitting) is None <==> same_path(resolved, declared)
            && fitting,
        source_error(declared, resolved, fitting) is None <==> same_path(resolved, declared)
            && fitting,
        target_error(declared, resolved, fitting) is None <==> below(resolved, "apex"@) && fitting,
        !same_path(resolved, declared) ==> projection_error(declared, resolved, fitting) == Some(
            "projection "@ + declared + " resolves outside its declared path"@,
        ),
{
}

/// Law: a module is named by letters, digits, dots, underscores and hyphens.
pub proof fn law_modules_are_named_plainly(module: Seq<char>)
    ensures
        module_name(module) <==> {
            &&& module.len() > 0
            &&& forall|i: int|
                0 <= i < module.len() ==> {
                    ||| 'a' <= #[trigger] module[i] <= 'z'
                    ||| 'A' <= module[i] <= 'Z'
                    ||| '0' <= module[i] <= '9'
                    ||| module[i] == '.'
                    ||| module[i] == '_'
                    ||| module[i] == '-'
                }
        },
{
}

/// Law: a projection within `/droidloom` and a plain module are accepted alone,
/// and so is one more override behind an accepted command line.
pub proof fn law_good_arguments_are_accepted(
    arguments: Seq<Seq<char>>,
    source: Seq<char>,
    target: Seq<char>,
)
    ensures
        arguments.len() == 2 && within(arguments[0], "droidloom"@) && module_name(arguments[1])
            ==> parsed(arguments) is Ok && parsed(arguments)->Ok_0.overrides.len() == 0,
        parsed(arguments) is Ok && below(source, "droidloom"@) && below(target, "apex"@) ==> {
            let longer = arguments + seq!["--file-override"@, source, target];
            &&& parsed(longer) is Ok
            &&& parsed(longer)->Ok_0.overrides == parsed(arguments)->Ok_0.overrides.push(
                (source, target),
            )
        },
        arguments.len() < 2 ==> parsed(arguments) is Err,
        arguments.len() >= 2 && !within(arguments[0], "droidloom"@) ==> parsed(arguments) == Err::<
            ConfigView,
            Seq<char>,
        >("projection must be a normalized absolute path below /droidloom"@),
{
    if parsed(arguments) is Ok && below(source, "droidloom"@) && below(target, "apex"@) {
        lemma_one_more_override(arguments, 2, Seq::empty(), source, target);
    }
}

proof fn lemma_one_more_override(
    arguments: Seq<Seq<char>>,
    at: int,
    overrides: Seq<(Seq<char>, Seq<char>)>,
    source: Seq<char>,
    target: Seq<char>,
)
    requires
        0 <= at <= arguments.len(),
        parse_overrides(arguments, at, overrides) is Ok,
        below(source, "droidloom"@),
        below(target, "apex"@),
    ensures
        parse_overrides(arguments + seq!["--file-override"@, source, target], at, overrides) == Ok::<
            Seq<(Seq<char>, Seq<char>)>,
            Seq<char>,
        >(parse_overrides(arguments, at, overrides)->Ok_0.push((source, target))),
    decreases arguments.len() - at,
{
    let longer = arguments + seq!["--file-override"@, source, target];
    if at == arguments.len() {
        assert(longer[at] == "--file-override"@ && longer[at + 1] == source && longer[at + 2]
            == target);
        assert(parse_overrides(longer, at + 3, overrides.push((source, target))) == Ok::<
            Seq<(Seq<char>, Seq<char>)>,
            Seq<char>,
        >(overrides.push((source, target))));
    } else {
        assert(longer[at] == arguments[at] && longer[at + 1] == arguments[at + 1] && longer[at + 2]
            == arguments[at + 2]);
        lemma_one_more_override(
            arguments,
            at + 3,
            overrides.push((arguments[at + 1], arguments[at + 2])),
            source,
            target,
        );
    }
}

} // verus!
