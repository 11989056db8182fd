//! The names under which outputs are stored: the stem of an object key, and
//! the name of each encoded output of an object.

use vstd::prelude::*;
use vstd::std_specs::iter::IteratorSpec;
use vstd::string::StrSliceExecFns;
use vstd::string::StringExecFns;

verus! {

/// What follows the last `sep` in `s`; all of `s` where it holds none.
pub open spec fn after_last(s: Seq<char>, sep: char) -> Seq<char>
    decreases s.len(),
{
    if s.len() == 0 {
        s
    } else if s.last() == sep {
        Seq::empty()
    } else {
        after_last(s.drop_last(), sep).push(s.last())
    }
}

/// A file name without its extension and without its dots: the name is cut
/// at each dot, the last piece is dropped, and the others are joined from the
/// last to the first. A name without a dot has an empty stem.
pub open spec fn reversed_stem(name: Seq<char>) -> Seq<char>
    decreases name.len(),
{
    if name.len() == 0 {
        name
    } else if name.last() == '.' {
        after_last(name.drop_last(), '.') + reversed_stem(name.drop_last())
    } else {
        reversed_stem(name.drop_last())
    }
}

/// The stem of an object key: that of its last path segment.
pub open spec fn stem_of(key: Seq<char>) -> Seq<char> {
    reversed_stem(after_last(key, '/'))
}

/// Computes the stem of an object key.
pub fn object_stem(key: &str) -> (stem: String)
    ensures
        stem@ == stem_of(key@),
{
    let len = key.unicode_len();
    let mut chars = key.chars();
    let mut seen: usize = 0;
    let mut piece_start: usize = 0;
    let mut stem = String::new();
    loop
        invariant
            len == key@.len(),
            seen <= len,
            piece_start <= seen,
            chars.obeys_prophetic_iter_laws(),
            chars.remaining() == key@.skip(seen as int),
            stem@ == stem_of(key@.take(seen as int)),
            key@.subrange(piece_start as int, seen as int) == after_last(
                after_last(key@.take(seen as int), '/'),
                '.',
            ),
        ensures
            stem@ == stem_of(key@),
        decreases len - seen,
    {
        let ghost prefix = key@.take(seen as int);
        match chars.next() {
            None => {
                proof {
                    assert(key@.take(seen as int) =~= key@);
                }
                break ;
            },
            Some(c) => {
                proof {
                    assert(key@.take(seen + 1) =~= prefix.push(c));
                    assert(prefix.push(c).drop_last() =~= prefix);
                }
                if c == '/' {
                    stem = String::new();
                    piece_start = seen + 1;
                } else if c == '.' {
                    let piece = key.substring_char(piece_start, seen);
                    let mut joined = piece.to_owned();
                    joined.append(stem.as_str());
                    stem = joined;
                    piece_start = seen + 1;
                    proof {
                        let segment = after_last(prefix, '/');
                        assert(segment.push(c).drop_last() =~= segment);
                    }
                } else {
                    proof {
                        let segment = after_last(prefix, '/');
                        assert(segment.push(c).drop_last() =~= segment);
                        assert(key@.subrange(piece_start as int, seen + 1) =~= key@.subrange(
                            piece_start as int,
                            seen as int,
                        ).push(c));
                    }
                }
                seen = seen + 1;
            },
        }
    }
    stem
}

/// `s` holds no `c`.
pub open spec fn free_of(s: Seq<char>, c: char) -> bool {
    forall|i: int| 0 <= i < s.len() ==> (#[trigger] s[i]) != c
}

/// What holds none of a character still holds none without its last element.
proof fn lemma_free_of_shorter(s: Seq<char>, c: char)
    requires
        free_of(s, c),
        s.len() > 0,
    ensures
        free_of(s.drop_last(), c),
{
    assert forall|i: int| 0 <= i < s.drop_last().len() implies (#[trigger] s.drop_last()[i])
        != c by {
        assert(s.drop_last()[i] == s[i]);
    }
}

/// After a separator, what follows the last separator is what follows that
/// one, where nothing after it is a separator.
pub proof fn lemma_after_last_of_joined(head: Seq<char>, sep: char, tail: Seq<char>)
    requires
        free_of(tail, sep),
    ensures
        after_last(head.push(sep) + tail, sep) == tail,
    decreases tail.len(),
{
    let whole = head.push(sep) + tail;
    if tail.len() == 0 {
    } else {
        assert(whole.drop_last() =~= head.push(sep) + tail.drop_last());
        lemma_free_of_shorter(tail, sep);
        lemma_after_last_of_joined(head, sep, tail.drop_last());
    }
}

/// A sequence without the separator is what follows its last separator.
pub proof fn lemma_after_last_of_free(s: Seq<char>, sep: char)
    requires
        free_of(s, sep),
    ensures
        after_last(s, sep) == s,
    decreases s.len(),
{
    if s.len() > 0 {
        lemma_free_of_shorter(s, sep);
        lemma_after_last_of_free(s.drop_last(), sep);
    }
}

/// A name without a dot has an empty stem.
pub proof fn lemma_stem_without_dot(name: Seq<char>)
    requires
        free_of(name, '.'),
    ensures
        reversed_stem(name) == Seq::<char>::empty(),
    decreases name.len(),
{
    if name.len() > 0 {
        lemma_free_of_shorter(name, '.');
        lemma_stem_without_dot(name.drop_last());
    }
}

/// The stem of `directory/name.extension` is `name`, where `name` and
/// `extension` hold neither a dot nor a slash.
pub proof fn lemma_stem_of_plain_key(directory: Seq<char>, name: Seq<char>, extension: Seq<char>)
    requires
        free_of(name, '.'),
        free_of(name, '/'),
        free_of(extension, '.'),
        free_of(extension, '/'),
    ensures
        stem_of(directory.push('/') + (name.push('.') + extension)) == name,
        stem_of(name.push('.') + extension) == name,
{
    let file = name.push('.') + extension;
    lemma_after_last_of_joined(directory, '/', file);
    lemma_after_last_of_free(file, '/');
    lemma_stem_with_extension(name, extension);
}

/// Cutting off an extension without a dot leaves the stem of a name that
/// ends in a dot.
proof fn lemma_stem_with_extension(name: Seq<char>, extension: Seq<char>)
    requires
        free_of(name, '.'),
        free_of(extension, '.'),
    ensures
        reversed_stem(name.push('.') + extension) == name,
    decreases extension.len(),
{
    let file = name.push('.') + extension;
    if extension.len() == 0 {
        assert(file.drop_last() =~= name);
        lemma_after_last_of_free(name, '.');
        lemma_stem_without_dot(name);
    } else {
        assert(file.drop_last() =~= name.push('.') + extension.drop_last());
        lemma_free_of_shorter(extension, '.');
        lemma_stem_with_extension(name, extension.drop_last());
    }
}

/// Which of the three outputs of a stereo object an encoded buffer is.
#[derive(Clone, Copy, Debug, PartialEq, Eq, Structural)]
pub enum Role {
    /// The left channel alone.
    Left,
    /// The right channel alone.
    Right,
    /// Both channels, encoded together.
    Joint,
}

/// What a role adds to the base name.
pub open spec fn role_suffix(role: Role) -> Seq<char> {
    match role {
        Role::Left => "-left"@,
        Role::Right => "-right"@,
        Role::Joint => ""@,
    }
}

/// The name of an output: the base name, the suffix of its role, and the
/// extension.
pub open spec fn staged_name(base: Seq<char>, role: Role) -> Seq<char> {
    base + role_suffix(role) + ".mp3"@
}

/// The suffix of a role.
pub fn suffix_of(role: Role) -> (suffix: &'static str)
    ensures
        suffix@ == role_suffix(role),
{
    match role {
        Role::Left => "-left",
        Role::Right => "-right",
        Role::Joint => "",
    }
}

/// Builds the name of an output.
pub fn output_name(base_name: &str, role: Role) -> (name: String)
    ensures
        name@ == staged_name(base_name@, role),
{
    let mut name = base_name.to_owned();
    name.append(suffix_of(role));
    name.append(".mp3");
    name
}

/// The outputs of one object never share a name: two roles give two names.
pub proof fn lemma_roles_give_distinct_names(base: Seq<char>, first: Role, second: Role)
    requires
        first != second,
    ensures
        staged_name(base, first) != staged_name(base, second),
{
    reveal_strlit("-left");
    reveal_strlit("-right");
    reveal_strlit("");
    reveal_strlit(".mp3");
    assert(staged_name(base, second).len() == base.len() + role_suffix(second).len() + 4);
}

/// No name occurs twice.
pub open spec fn distinct(names: Seq<Seq<char>>) -> bool {
    forall|i: int, j: int| 0 <= i < j < names.len() ==> names[i] != names[j]
}

/// The names as values.
pub open spec fn views_of(names: Seq<String>) -> Seq<Seq<char>> {
    names.map_values(|name: String| name@)
}

/// Whether a name is among those listed.
pub fn is_listed(names: &Vec<String>, name: &str) -> (found: bool)
    ensures
        found == views_of(names@).contains(name@),
{
    let wanted = name.to_owned();
    let mut i: usize = 0;
    while i < names.len()
        invariant
            i <= names.len(),
            wanted@ == name@,
            forall|k: int| 0 <= k < i ==> views_of(names@)[k] != name@,
        decreases names.len() - i,
    {
        if names[i] == wanted {
            assert(views_of(names@)[i as int] == name@);
            return true;
        }
        i = i + 1;
    }
    false
}

/// A list without repetition stays so when a name that it lacks is added.
pub proof fn lemma_distinct_push(names: Seq<Seq<char>>, name: Seq<char>)
    requires
        distinct(names),
        !names.contains(name),
    ensures
        distinct(names.push(name)),
{
    let longer = names.push(name);
    assert forall|i: int, j: int| 0 <= i < j < longer.len() implies longer[i] != longer[j] by {
        if j == names.len() {
            assert(names.contains(names[i]));
        }
    }
}

} // verus!
