//! File paths, as strings with `/` between their parts.

use crate::capability::opt_string;
use crate::names::texts;
use crate::text::{chars_of, joined, joined3, starts_with};
use vstd::prelude::*;
use vstd::string::*;

verus! {

/// A path that starts at the root.
pub open spec fn is_absolute_path(path: Seq<char>) -> bool {
    path.len() > 0 && path[0] == '/'
}

/// Whether a path starts at the root.
pub fn is_absolute(path: &str) -> (r: bool)
    ensures
        r == is_absolute_path(path@),
{
    let cs = chars_of(path);
    cs.len() > 0 && cs[0] == '/'
}

/// `part` below `base`. An absolute part stands for itself.
pub open spec fn joined_path(base: Seq<char>, part: Seq<char>) -> Seq<char> {
    if is_absolute_path(part) || base.len() == 0 {
        part
    } else if base.last() == '/' {
        base + part
    } else {
        base + "/"@ + part
    }
}

/// `part` below `base`.
pub fn join_path(base: &str, part: &str) -> (r: String)
    ensures
        r@ == joined_path(base@, part@),
{
    let cs = chars_of(base);
    if is_absolute(part) || cs.len() == 0 {
        part.to_owned()
    } else if cs[cs.len() - 1] == '/' {
        joined(base, part)
    } else {
        joined3(base, "/", part)
    }
}

/// What stands behind the last `/`.
pub open spec fn tail_segment(path: Seq<char>) -> Seq<char>
    decreases path.len(),
{
    if path.len() == 0 || path.last() == '/' {
        Seq::empty()
    } else {
        tail_segment(path.drop_last()).push(path.last())
    }
}

/// The name of the file that a path leads to: its last part, where parts that
/// are empty or `.` do not count. A path that ends in `..` has none.
pub open spec fn file_name(path: Seq<char>) -> Option<Seq<char>>
    decreases path.len(),
{
    if path.len() == 0 {
        None
    } else {
        let segment = tail_segment(path);
        if segment.len() == 0 || segment == seq!['.'] {
            file_name(path.drop_last())
        } else if segment == seq!['.', '.'] {
            None
        } else {
            Some(segment)
        }
    }
}

/// What stands behind the last dot of a name, if a dot stands behind its first
/// character.
pub open spec fn dot_suffix(name: Seq<char>) -> Option<Seq<char>>
    decreases name.len(),
{
    if name.len() <= 1 {
        None
    } else if name.last() == '.' {
        Some(Seq::empty())
    } else {
        match dot_suffix(name.drop_last()) {
            Some(s) => Some(s.push(name.last())),
            None => None,
        }
    }
}

/// The extension of the file that a path leads to.
pub open spec fn extension(path: Seq<char>) -> Option<Seq<char>> {
    match file_name(path) {
        Some(name) => dot_suffix(name),
        None => None,
    }
}

/// Where the last segment of the first `n` characters starts.
fn segment_start(cs: &Vec<char>, n: usize) -> (start: usize)
    requires
        n <= cs.len(),
    ensures
        start <= n,
        tail_segment(cs@.take(n as int)) == cs@.subrange(start as int, n as int),
{
    let mut start: usize = n;
    assert(cs@.subrange(n as int, n as int) =~= Seq::<char>::empty());
    while start > 0 && cs[start - 1] != '/'
        invariant
            start <= n <= cs.len(),
            forall|i: int| start <= i < n ==> cs@[i] != '/',
        decreases start,
    {
        start = start - 1;
    }
    proof {
        lemma_tail_segment(cs@, start as int, n as int);
    }
    start
}

proof fn lemma_tail_segment(cs: Seq<char>, start: int, n: int)
    requires
        0 <= start <= n <= cs.len(),
        forall|i: int| start <= i < n ==> cs[i] != '/',
        start == 0 || cs[start - 1] == '/',
    ensures
        tail_segment(cs.take(n)) == cs.subrange(start, n),
    decreases n - start,
{
    let s = cs.take(n);
    if n == start {
        assert(cs.subrange(start, n) =~= Seq::<char>::empty());
        if n > 0 {
            assert(s.last() == cs[n - 1]);
        }
    } else {
        assert(s.drop_last() =~= cs.take(n - 1));
        assert(s.last() == cs[n - 1]);
        lemma_tail_segment(cs, start, n - 1);
        assert(cs.subrange(start, n - 1).push(cs[n - 1]) =~= cs.subrange(start, n));
    }
}

/// The extension of the file that a path leads to.
pub fn file_extension(path: &str) -> (r: Option<&str>)
    ensures
        (match r {
            Some(e) => Some(e@),
            None => None::<Seq<char>>,
        }) == extension(path@),
{
    let cs = chars_of(path);
    let mut n: usize = cs.len();
    assert(cs@.take(n as int) =~= path@);
    let mut start: usize = segment_start(&cs, n);
    while n > 0 && (start == n || (start + 1 == n && cs[start] == '.'))
        invariant
            cs@ == path@,
            start <= n <= cs.len(),
            tail_segment(cs@.take(n as int)) == cs@.subrange(start as int, n as int),
            file_name(cs@.take(n as int)) == file_name(path@),
        decreases n,
    {
        proof {
            if start + 1 == n {
                assert(cs@.subrange(start as int, n as int) =~= seq!['.']);
            }
            assert(cs@.take(n as int).drop_last() =~= cs@.take(n - 1));
        }
        n = n - 1;
        start = segment_start(&cs, n);
    }
    let ghost segment = cs@.subrange(start as int, n as int);
    if n == 0 {
        return None;
    }
    proof {
        if segment == seq!['.'] {
            assert(segment.len() == 1);
            assert(segment[0] == cs@[start as int]);
        }
    }
    if n - start == 2 && cs[start] == '.' && cs[start + 1] == '.' {
        assert(segment =~= seq!['.', '.']);
        return None;
    }
    proof {
        if segment == seq!['.', '.'] {
            assert(segment[0] == cs@[start as int] && segment[1] == cs@[start + 1]);
        }
    }
    assert(file_name(path@) == Some(segment));
    let mut dot: usize = n;
    while dot > start + 1 && cs[dot - 1] != '.'
        invariant
            start < dot <= n <= cs.len(),
            forall|i: int| dot <= i < n ==> cs@[i] != '.',
        decreases dot,
    {
        dot = dot - 1;
    }
    proof {
        lemma_dot_suffix(segment, dot - start);
    }
    if dot == start + 1 {
        None
    } else {
        let r = path.substring_char(dot, n);
        assert(r@ =~= segment.skip(dot - start));
        Some(r)
    }
}

proof fn lemma_dot_suffix(name: Seq<char>, dot: int)
    requires
        1 <= dot <= name.len(),
        forall|i: int| dot <= i < name.len() ==> name[i] != '.',
        dot == 1 || name[dot - 1] == '.',
    ensures
        dot_suffix(name) == (if dot == 1 {
            None
        } else {
            Some(name.skip(dot))
        }),
    decreases name.len() - dot,
{
    if dot == name.len() {
        if dot > 1 {
            assert(name.skip(dot) =~= Seq::<char>::empty());
        }
    } else {
        assert(name.last() == name[name.len() - 1]);
        lemma_dot_suffix(name.drop_last(), dot);
        if dot > 1 {
            assert(name.drop_last().skip(dot).push(name.last()) =~= name.skip(dot));
        }
    }
}

/// The script that a name in the configuration stands for.
pub fn resolve_script_path(scripts_dir: &str, script_name: &str) -> (r: String)
    ensures
        r@ == script_path(scripts_dir@, script_name@),
{
    if is_absolute(script_name) {
        script_name.to_owned()
    } else {
        join_path(scripts_dir, script_name)
    }
}

pub open spec fn script_path(scripts_dir: Seq<char>, script_name: Seq<char>) -> Seq<char> {
    if is_absolute_path(script_name) {
        script_name
    } else {
        joined_path(scripts_dir, script_name)
    }
}

/// A path with a leading `~/` replaced by the home directory, where that is
/// known.
pub open spec fn expanded(path: Seq<char>, home: Option<Seq<char>>) -> Seq<char> {
    if "~/"@.is_prefix_of(path) && home is Some {
        joined_path(home->0, path.skip(2))
    } else {
        path
    }
}

/// Expands a leading `~` to the home directory, where there is one.
pub fn expand_path_in(path: &str, home: Option<&str>) -> (r: String)
    ensures
        r@ == expanded(path@, crate::value::opt_text(home)),
{
    proof {
        reveal_strlit("~/");
    }
    if starts_with(path, "~/") {
        match home {
            Some(home) => {
                let n: usize = path.unicode_len();
                let rest = path.substring_char(2, n);
                assert(rest@ =~= path@.skip(2));
                join_path(home, rest)
            },
            None => path.to_owned(),
        }
    } else {
        path.to_owned()
    }
}

/// What stands before the last `/`: the directory of a path, without the file.
/// A path without `/` has an empty one.
pub open spec fn head_segments(path: Seq<char>) -> Seq<char> {
    path.take(path.len() - tail_segment(path).len())
}

/// The directory that holds the scripts: `~/` is expanded, an absolute directory
/// is used as it is, and any other is taken relative to the directory of the
/// configuration file. Without a configuration file it is relative to where the
/// program runs.
pub open spec fn scripts_directory(
    scripts_dir: Seq<char>,
    config_path: Option<Seq<char>>,
    home: Option<Seq<char>>,
) -> Seq<char> {
    let dir = expanded(scripts_dir, home);
    match config_path {
        Some(config) => joined_path(head_segments(config), dir),
        None => dir,
    }
}

/// The directory that holds the scripts.
pub fn resolve_scripts_dir(scripts_dir: &str, config_path: Option<&str>, home: Option<&str>) -> (r:
    String)
    ensures
        r@ == scripts_directory(
            scripts_dir@,
            crate::value::opt_text(config_path),
            crate::value::opt_text(home),
        ),
{
    let dir = expand_path_in(scripts_dir, home);
    match config_path {
        Some(config) => {
            let cs = chars_of(config);
            let start: usize = segment_start(&cs, cs.len());
            assert(cs@.take(cs@.len() as int) =~= cs@);
            let base = config.substring_char(0, start);
            assert(base@ =~= head_segments(config@));
            join_path(base, dir.as_str())
        },
        None => dir,
    }
}

/// The first of some paths of which something was found.
pub open spec fn first_found(paths: Seq<Seq<char>>, found: Seq<bool>) -> Option<Seq<char>>
    decreases paths.len(),
{
    if paths.len() == 0 || found.len() == 0 {
        None
    } else if found[0] {
        Some(paths[0])
    } else {
        first_found(paths.skip(1), found.skip(1))
    }
}

/// Chooses among some paths, given for each whether something was found there.
pub fn choose_first(paths: &Vec<String>, found: &Vec<bool>) -> (r: Option<String>)
    ensures
        opt_string(r) == first_found(texts(paths@), found@),
{
    let ghost all = texts(paths@);
    assert(all.skip(0) =~= all);
    assert(found@.skip(0) =~= found@);
    let mut i: usize = 0;
    while i < paths.len() && i < found.len()
        invariant
            all == texts(paths@),
            i <= paths@.len(),
            i <= found@.len(),
            first_found(all.skip(i as int), found@.skip(i as int)) == first_found(all, found@),
        decreases paths.len() - i,
    {
        assert(all.skip(i as int)[0] == paths@[i as int]@);
        assert(all.skip(i as int).skip(1) =~= all.skip(i + 1));
        assert(found@.skip(i as int).skip(1) =~= found@.skip(i + 1));
        if found[i] {
            return Some(paths[i].clone());
        }
        i = i + 1;
    }
    None
}

/// The path that is chosen is one where something was found, and nothing was
/// found at those before it. None is chosen only where nothing was found at all.
pub proof fn first_found_is_first(paths: Seq<Seq<char>>, found: Seq<bool>)
    requires
        paths.len() == found.len(),
    ensures
        match first_found(paths, found) {
            Some(p) => exists|i: int|
                0 <= i < paths.len() && #[trigger] paths[i] == p && found[i] && forall|j: int|
                    0 <= j < i ==> !#[trigger] found[j],
            None => forall|j: int| 0 <= j < found.len() ==> !#[trigger] found[j],
        },
    decreases paths.len(),
{
    if paths.len() > 0 {
        if found[0] {
            assert(paths[0] == paths[0]);
        } else {
            let (rest, seen) = (paths.skip(1), found.skip(1));
            first_found_is_first(rest, seen);
            match first_found(rest, seen) {
                Some(p) => {
                    let i = choose|i: int|
                        0 <= i < rest.len() && #[trigger] rest[i] == p && seen[i] && forall|j: int|
                            0 <= j < i ==> !#[trigger] seen[j];
                    assert(paths[i + 1] == p && found[i + 1]);
                    assert forall|j: int| 0 <= j < i + 1 implies !#[trigger] found[j] by {
                        if j > 0 {
                            assert(!seen[j - 1]);
                        }
                    }
                },
                None => {
                    assert forall|j: int| 0 <= j < found.len() implies !#[trigger] found[j] by {
                        if j > 0 {
                            assert(!seen[j - 1]);
                        }
                    }
                },
            }
        }
    }
}

/// An absolute script path is used as it is, wherever the scripts are.
pub proof fn absolute_scripts_stand_for_themselves(dir: Seq<char>, name: Seq<char>)
    requires
        is_absolute_path(name),
    ensures
        script_path(dir, name) == name,
{
}

/// A relative script path leads below the scripts directory.
pub proof fn relative_scripts_lie_below(dir: Seq<char>, name: Seq<char>)
    requires
        !is_absolute_path(name),
        dir.len() > 0,
    ensures
        dir.is_prefix_of(script_path(dir, name)),
        name.is_suffix_of(script_path(dir, name)),
{
    let p = script_path(dir, name);
    reveal_strlit("/");
    assert(dir =~= p.take(dir.len() as int));
    assert(name =~= p.skip(p.len() - name.len()));
}

/// A path below a directory has one slash between the two. An absolute path stands for
/// itself, and so does one below nothing.
pub proof fn paths_are_joined(base: Seq<char>, part: Seq<char>)
    ensures
        joined_path(base, seq!['/'] + part) == seq!['/'] + part,
        joined_path(Seq::empty(), part) == part,
        !(part.len() > 0 && part[0] == '/') ==> joined_path(base.push('/'), part) == base.push('/')
            + part,
        !(part.len() > 0 && part[0] == '/') && base.len() > 0 && base.last() != '/' ==> joined_path(
            base,
            part,
        ) == base.push('/') + part,
{
    reveal_strlit("/");
    assert("/"@ =~= seq!['/']);
    assert((seq!['/'] + part)[0] == '/');
    assert(base.push('/').last() == '/');
    assert(base + "/"@ + part =~= base.push('/') + part);
}

proof fn lemma_tail(dir: Seq<char>, name: Seq<char>)
    requires
        !name.contains('/'),
        dir.len() > 0 ==> dir.last() == '/',
    ensures
        tail_segment(dir + name) == name,
    decreases name.len(),
{
    let path = dir + name;
    if name.len() == 0 {
        assert(path =~= dir);
    } else {
        let init = name.drop_last();
        assert(name[name.len() - 1] == name.last());
        assert(name.last() != '/');
        assert(!init.contains('/')) by {
            if init.contains('/') {
                let i = choose|i: int| 0 <= i < init.len() && init[i] == '/';
                assert(name[i] == '/');
            }
        }
        lemma_tail(dir, init);
        assert(path.drop_last() =~= dir + init);
        assert(path.last() == name.last());
        assert(init.push(name.last()) =~= name);
    }
}

proof fn lemma_no_tail(path: Seq<char>)
    ensures
        tail_segment(path).len() <= path.len(),
        !tail_segment(path).contains('/'),
        path == head_segments(path) + tail_segment(path),
        head_segments(path).len() > 0 ==> head_segments(path).last() == '/',
    decreases path.len(),
{
    let tail = tail_segment(path);
    if path.len() > 0 && path.last() != '/' {
        let init = path.drop_last();
        lemma_no_tail(init);
        assert(tail == tail_segment(init).push(path.last()));
        assert(head_segments(path) =~= head_segments(init));
        assert(path =~= init.push(path.last()));
        assert(head_segments(init) + tail =~= (head_segments(init) + tail_segment(init)).push(
            path.last(),
        ));
        if tail.contains('/') {
            let i = choose|i: int| 0 <= i < tail.len() && tail[i] == '/';
            if i < tail_segment(init).len() {
                assert(tail_segment(init)[i] == '/');
            }
        }
    } else {
        assert(head_segments(path) =~= path);
        assert(path =~= head_segments(path) + tail);
    }
}

/// A path is cut behind its last slash: what stands before ends in one, and what stands
/// behind has none.
pub proof fn paths_are_cut_at_the_last_slash(dir: Seq<char>, name: Seq<char>, path: Seq<char>)
    requires
        !name.contains('/'),
    ensures
        tail_segment(dir.push('/') + name) == name,
        head_segments(dir.push('/') + name) == dir.push('/'),
        tail_segment(name) == name,
        head_segments(name).len() == 0,
        path == head_segments(path) + tail_segment(path),
        !tail_segment(path).contains('/'),
{
    assert(dir.push('/').last() == '/');
    lemma_tail(dir.push('/'), name);
    lemma_tail(Seq::empty(), name);
    assert(Seq::<char>::empty() + name =~= name);
    lemma_no_tail(path);
    assert(head_segments(dir.push('/') + name) =~= dir.push('/'));
}

/// The name of a file is what stands behind the last slash. Slashes and single dots at the
/// end do not count, and two dots name no file.
pub proof fn files_are_named(dir: Seq<char>, name: Seq<char>)
    requires
        !name.contains('/'),
        dir.len() > 0 ==> dir.last() == '/',
    ensures
        name.len() > 0 && name != seq!['.'] && name != seq!['.', '.'] ==> file_name(dir + name)
            == Some(name),
        name == seq!['.', '.'] ==> file_name(dir + name) is None,
        file_name(Seq::empty()) is None,
        file_name(dir.push('/')) == file_name(dir),
        dir.len() > 0 ==> file_name(dir.push('.')) == file_name(dir),
{
    lemma_tail(dir, name);
    assert(dir.push('/').drop_last() =~= dir);
    assert(dir.push('/').last() == '/');
    assert(dir.push('.').drop_last() =~= dir);
    if dir.len() > 0 {
        let dot = seq!['.'];
        assert(!dot.contains('/'));
        lemma_tail(dir, dot);
        assert(dir + dot =~= dir.push('.'));
    }
}

proof fn lemma_stem_and_extension(stem: Seq<char>, ext: Seq<char>)
    requires
        stem.len() > 0,
        !ext.contains('.'),
    ensures
        dot_suffix(stem.push('.') + ext) == Some(ext),
    decreases ext.len(),
{
    let name = stem.push('.') + ext;
    if ext.len() == 0 {
        assert(name =~= stem.push('.'));
        assert(ext =~= Seq::empty());
    } else {
        let init = ext.drop_last();
        assert(ext[ext.len() - 1] == ext.last());
        assert(!init.contains('.')) by {
            if init.contains('.') {
                let i = choose|i: int| 0 <= i < init.len() && init[i] == '.';
                assert(ext[i] == '.');
            }
        }
        lemma_stem_and_extension(stem, init);
        assert(name.drop_last() =~= stem.push('.') + init);
        assert(name.last() == ext.last());
        assert(init.push(ext.last()) =~= ext);
    }
}

proof fn lemma_no_dot(name: Seq<char>)
    requires
        forall|i: int| 0 < i < name.len() ==> #[trigger] name[i] != '.',
    ensures
        dot_suffix(name) is None,
    decreases name.len(),
{
    if name.len() > 1 {
        assert(name[name.len() - 1] == name.last());
        assert(forall|i: int| 0 < i < name.len() - 1 ==> #[trigger] name.drop_last()[i] == name[i]);
        lemma_no_dot(name.drop_last());
    }
}

/// The extension of a path is what stands behind the last dot of the file's name. A dot at
/// its beginning does not count.
pub proof fn files_have_extensions(
    dir: Seq<char>,
    stem: Seq<char>,
    ext: Seq<char>,
    name: Seq<char>,
)
    requires
        dir.len() > 0 ==> dir.last() == '/',
        stem.len() > 0,
        !stem.contains('/'),
        !ext.contains('/'),
        !ext.contains('.'),
        !name.contains('/'),
        forall|i: int| 0 < i < name.len() ==> #[trigger] name[i] != '.',
    ensures
        stem != seq!['.'] || ext.len() > 0 ==> extension(dir + (stem.push('.') + ext)) == Some(ext),
        name.len() > 0 && name != seq!['.'] ==> extension(dir + name) is None,
{
    let full = stem.push('.') + ext;
    assert(!full.contains('/')) by {
        if full.contains('/') {
            let i = choose|i: int| 0 <= i < full.len() && full[i] == '/';
            if i < stem.len() {
                assert(stem[i] == '/');
            } else if i > stem.len() {
                assert(ext[i - stem.len() - 1] == '/');
            }
        }
    }
    files_are_named(dir, full);
    assert(full.len() >= 2);
    if full == seq!['.', '.'] {
        assert(stem =~= seq!['.']);
        assert(ext.len() == 0);
    }
    lemma_stem_and_extension(stem, ext);
    files_are_named(dir, name);
    if name == seq!['.', '.'] {
        assert(name[1] == '.');
    }
    lemma_no_dot(name);
}

/// A script is found below the scripts directory, or at its own absolute path.
pub proof fn scripts_are_found(dir: Seq<char>, name: Seq<char>)
    ensures
        script_path(dir, seq!['/'] + name) == seq!['/'] + name,
        !(name.len() > 0 && name[0] == '/') && dir.len() > 0 && dir.last() != '/' ==> script_path(
            dir,
            name,
        ) == dir.push('/') + name,
        !(name.len() > 0 && name[0] == '/') ==> script_path(dir.push('/'), name) == dir.push('/')
            + name,
        script_path(Seq::empty(), name) == name,
{
    paths_are_joined(dir, name);
    assert((seq!['/'] + name)[0] == '/');
}

/// A tilde and a slash at the beginning stand for the home directory, where there is one.
/// Every other path stands for itself.
pub proof fn tildes_are_expanded(home: Seq<char>, rest: Seq<char>, path: Seq<char>)
    ensures
        expanded(seq!['~', '/'] + rest, Some(home)) == joined_path(home, rest),
        expanded(path, None) == path,
        !(path.len() >= 2 && path[0] == '~' && path[1] == '/') ==> expanded(path,
            Some(home)) == path,
{
    reveal_strlit("~/");
    assert("~/"@ =~= seq!['~', '/']);
    let full = seq!['~', '/'] + rest;
    assert("~/"@ =~= full.take(2));
    assert("~/"@.is_prefix_of(full));
    assert(full.skip(2) =~= rest);
    if "~/"@.is_prefix_of(path) {
        assert(path.take(2)[0] == '~' && path.take(2)[1] == '/');
    }
}

/// A relative scripts directory lies beside the configuration file, and an absolute one
/// stands for itself.
pub proof fn scripts_lie_beside_the_configuration(
    dir: Seq<char>,
    scripts: Seq<char>,
    file: Seq<char>,
    home: Option<Seq<char>>,
)
    requires
        !file.contains('/'),
        scripts.len() > 0,
        scripts[0] != '~',
    ensures
        scripts[0] != '/' ==> scripts_directory(scripts, Some(dir.push('/') + file), home)
            == dir.push('/') + scripts,
        scripts[0] != '/' ==> scripts_directory(scripts, Some(file), home) == scripts,
        scripts[0] == '/' ==> scripts_directory(scripts, Some(dir.push('/') + file),
            home) == scripts,
        scripts_directory(scripts, None, home) == scripts,
{
    tildes_are_expanded(home->0, scripts, scripts);
    paths_are_cut_at_the_last_slash(dir, file, file);
    paths_are_joined(dir, scripts);
    if scripts[0] == '/' {
        assert(is_absolute_path(scripts));
    }
    assert(head_segments(file) =~= Seq::empty());
}

} // verus!
