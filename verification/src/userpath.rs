//! `~` expansion in configured paths and patterns.
//!
//! Expanded paths are re-joined component by component, as the platform's
//! path builder does on this target: runs of separators collapse to one,
//! interior `.` segments and trailing separators are dropped, and a leading
//! separator or a leading `.` segment is kept.

use vstd::prelude::*;

verus! {

/// The length of the leading separator-free run of the text.
pub open spec fn seg_len(p: Seq<char>) -> nat
    decreases p.len(),
{
    if p.len() == 0 || p[0] == '/' {
        0
    } else {
        1 + seg_len(p.skip(1))
    }
}

/// The leading separator-free run is never longer than the text.
pub proof fn lemma_seg_len_le(p: Seq<char>)
    ensures
        seg_len(p) <= p.len(),
    decreases p.len(),
{
    if p.len() != 0 && p[0] != '/' {
        lemma_seg_len_le(p.skip(1));
    }
}

/// The leading run of `p.skip(i)` ends exactly at `j` when no separator
/// stands in `[i, j)` and `j` is the end of the text or a separator.
proof fn lemma_seg_len_at(p: Seq<char>, i: int, j: int)
    requires
        0 <= i <= j <= p.len(),
        forall|x: int| i <= x < j ==> p[x] != '/',
        j == p.len() || p[j] == '/',
    ensures
        seg_len(p.skip(i)) == j - i,
    decreases j - i,
{
    if i == j {
        if i < p.len() {
            assert(p.skip(i)[0] == p[i]);
        }
    } else {
        assert(p.skip(i)[0] == p[i]);
        assert(p.skip(i).skip(1) =~= p.skip(i + 1));
        lemma_seg_len_at(p, i + 1, j);
    }
}

/// One step of the platform's path builder: the segment is appended to the
/// base, behind a separator when the base is non-empty and does not already
/// end in one.
pub open spec fn join_one(base: Seq<char>, seg: Seq<char>) -> Seq<char> {
    if base.len() == 0 {
        seg
    } else if base[base.len() - 1] == '/' {
        base + seg
    } else {
        base + seq!['/'] + seg
    }
}

/// Appends every segment of the text to the base, as the platform's path
/// builder does: runs of separators collapse to one and `.` segments are
/// dropped.
pub open spec fn push_segments(base: Seq<char>, p: Seq<char>) -> Seq<char>
    decreases p.len(),
    via push_segments_decreases
{
    if p.len() == 0 {
        base
    } else if p[0] == '/' {
        push_segments(base, p.skip(1))
    } else if seg_len(p) == 1 && p[0] == '.' {
        push_segments(base, p.skip(1))
    } else {
        push_segments(join_one(base, p.take(seg_len(p) as int)), p.skip(seg_len(p) as int))
    }
}

#[via_fn]
proof fn push_segments_decreases(base: Seq<char>, p: Seq<char>) {
    lemma_seg_len_le(p);
    if p.len() != 0 && p[0] != '/' {
        assert(seg_len(p) >= 1);
    }
}

/// The text with its components re-joined as the platform's path builder
/// yields them: a leading separator or a leading `.` segment is kept;
/// interior `.` segments, repeated separators and trailing separators are
/// dropped.
pub open spec fn normalize_spec(p: Seq<char>) -> Seq<char> {
    if p.len() >= 1 && p[0] == '/' {
        push_segments(seq!['/'], p)
    } else if p.len() >= 1 && p[0] == '.' && (p.len() == 1 || p[1] == '/') {
        push_segments(seq!['.'], p.skip(1))
    } else {
        push_segments(Seq::empty(), p)
    }
}

/// The error for a `~` that does not stand for the home directory alone:
/// the fixed text followed by the offending path between plain double
/// quotes. The path stands in the message as it is, deliberately without
/// escaping of quotes, backslashes or control characters inside it: the
/// message is a diagnostic for a human reading the configuration.
pub open spec fn unsupported_tilde_message(path: Seq<char>) -> Seq<char> {
    "Unsupported use of '~': \""@ + path + "\""@
}

/// What `~` expansion yields: a path whose first component is exactly `~`
/// has the home directory put in its place and the remaining components
/// joined onto it; any other leading `~` (such as `~user`) is a
/// configuration error; a path without a leading `~` is kept, re-joined
/// component by component.
pub open spec fn expand_user_with_spec(path: Seq<char>, home: Seq<char>) -> Result<
    Seq<char>,
    Seq<char>,
> {
    if path.len() >= 1 && path[0] == '~' {
        if path.len() == 1 || path[1] == '/' {
            Ok(push_segments(home, path.skip(1)))
        } else {
            Err(unsupported_tilde_message(path))
        }
    } else {
        Ok(normalize_spec(path))
    }
}

/// The views of both sides of a string result.
pub open spec fn result_view(r: Result<String, String>) -> Result<Seq<char>, Seq<char>> {
    match r {
        Ok(s) => Ok(s@),
        Err(e) => Err(e@),
    }
}

/// One step of the platform's path builder, on strings.
fn join_one_exec(base: String, seg: &str) -> (r: String)
    ensures
        r@ == join_one(base@, seg@),
{
    let n: usize = base.as_str().unicode_len();
    if n == 0 {
        seg.to_owned()
    } else if base.as_str().get_char(n - 1) == '/' {
        base.concat(seg)
    } else {
        let mut b = base;
        b.append("/");
        b.append(seg);
        proof {
            reveal_strlit("/");
            assert("/"@ =~= seq!['/']);
            assert(b@ =~= join_one(base@, seg@));
        }
        b
    }
}

/// Joins every segment of `p` from position `from` onwards onto the base.
fn push_segments_from(base: String, p: &str, from: usize) -> (r: String)
    requires
        from <= p@.len(),
    ensures
        r@ == push_segments(base@, p@.skip(from as int)),
{
    let n: usize = p.unicode_len();
    let mut result = base;
    let mut i: usize = from;
    while i < n
        invariant
            i <= n,
            n == p@.len(),
            push_segments(result@, p@.skip(i as int)) == push_segments(
                base@,
                p@.skip(from as int),
            ),
        decreases n - i,
    {
        if p.get_char(i) == '/' {
            proof {
                assert(p@.skip(i as int)[0] == '/');
                assert(p@.skip(i as int).skip(1) =~= p@.skip(i + 1));
            }
            i += 1;
        } else {
            let mut j: usize = i + 1;
            while j < n && p.get_char(j) != '/'
                invariant
                    i < j <= n,
                    n == p@.len(),
                    p@[i as int] != '/',
                    forall|x: int| i < x < j ==> p@[x] != '/',
                decreases n - j,
            {
                j += 1;
            }
            proof {
                assert(forall|x: int| i <= x < j ==> p@[x] != '/');
                lemma_seg_len_at(p@, i as int, j as int);
                assert(p@.skip(i as int)[0] == p@[i as int]);
                assert(p@.skip(i as int).skip(j - i) =~= p@.skip(j as int));
            }
            if j == i + 1 && p.get_char(i) == '.' {
                proof {
                    assert(p@.skip(i as int).skip(1) =~= p@.skip(i + 1));
                }
            } else {
                let seg = p.substring_char(i, j);
                proof {
                    assert(p@.skip(i as int).take(j - i) =~= p@.subrange(i as int, j as int));
                }
                result = join_one_exec(result, seg);
            }
            i = j;
        }
    }
    proof {
        assert(p@.skip(n as int) =~= Seq::<char>::empty());
    }
    result
}

/// Expands a leading `~` in a configured path against the given home
/// directory.
pub fn expand_user_with(path: &str, home: &str) -> (r: Result<String, String>)
    ensures
        result_view(r) == expand_user_with_spec(path@, home@),
{
    let n: usize = path.unicode_len();
    if n >= 1 && path.get_char(0) == '~' {
        if n == 1 || path.get_char(1) == '/' {
            Ok(push_segments_from(home.to_owned(), path, 1))
        } else {
            let mut msg = String::from_str("Unsupported use of '~': \"");
            msg.append(path);
            msg.append("\"");
            Err(msg)
        }
    } else if n >= 1 && path.get_char(0) == '/' {
        let r = push_segments_from(String::from_str("/"), path, 0);
        proof {
            reveal_strlit("/");
            assert("/"@ =~= seq!['/']);
            assert(path@.skip(0) =~= path@);
        }
        Ok(r)
    } else if n >= 1 && path.get_char(0) == '.' && (n == 1 || path.get_char(1) == '/') {
        let r = push_segments_from(String::from_str("."), path, 1);
        proof {
            reveal_strlit(".");
            assert("."@ =~= seq!['.']);
        }
        Ok(r)
    } else {
        let r = push_segments_from(String::new(), path, 0);
        proof {
            assert(path@.skip(0) =~= path@);
        }
        Ok(r)
    }
}

/// Relies on `dirs_next::home_dir`: the platform's home directory, if one is
/// known. The inner result is `Err` when the directory's name is not valid
/// UTF-8, carrying the name's debug rendering.
#[verifier::external_body]
fn os_home_dir() -> (r: Option<Result<String, String>>) {
    dirs_next::home_dir().map(
        |p| p.into_os_string().into_string().map_err(|h| format!("{:?}", h)),
    )
}

/// The diagnostic for a home directory whose name is not valid UTF-8,
/// followed by the name's debug rendering.
pub open spec fn non_utf8_home_message(name: Seq<char>) -> Seq<char> {
    "The home directory is not valid UTF-8: "@ + name
}

/// Turns the platform's answer about the home directory into the directory
/// or a diagnostic: a missing home directory and a name that is not valid
/// UTF-8 are the two failures.
pub fn home_dir_message(os: Option<Result<String, String>>) -> (r: Result<String, String>)
    ensures
        match os {
            None => r matches Err(e) && e@ == "Home directory not found"@,
            Some(Err(name)) => r matches Err(e) && e@ == non_utf8_home_message(name@),
            Some(Ok(h)) => r matches Ok(x) && x@ == h@,
        },
{
    match os {
        None => Err("Home directory not found".to_owned()),
        Some(Err(name)) => Err(
            String::from_str("The home directory is not valid UTF-8: ").concat(name.as_str()),
        ),
        Some(Ok(h)) => Ok(h),
    }
}

/// The home directory as a UTF-8 string, from the platform. Whether one
/// comes back depends on the environment; an error is one of the two
/// diagnostics of `home_dir_message`.
pub fn home_dir() -> (r: Result<String, String>)
    ensures
        r matches Err(e) ==> e@ == "Home directory not found"@ || exists|name: Seq<char>|
            e@ == #[trigger] non_utf8_home_message(name),
{
    let os = os_home_dir();
    let ghost os_value = os;
    let r = home_dir_message(os);
    proof {
        match os_value {
            Some(Err(name)) => {
                assert(r matches Err(e) && e@ == non_utf8_home_message(name@));
            },
            _ => {},
        }
    }
    r
}

/// Expands a leading `~` in a configured path against the platform's home
/// directory. An `Ok` result is the `~` expansion of the path against some
/// home directory; a path without a leading `~` comes back re-joined
/// component by component; a `~` that does not stand for the home directory
/// alone is an error whatever the platform answered.
pub fn expand_user(path: &str) -> (r: Result<String, String>)
    ensures
        r matches Ok(s) ==> exists|home: Seq<char>|
            #[trigger] expand_user_with_spec(path@, home) == Ok::<Seq<char>, Seq<char>>(s@),
        (path@.len() == 0 || path@[0] != '~') ==> (r matches Ok(s) ==> s@ == normalize_spec(
            path@,
        )),
        path@.len() >= 2 && path@[0] == '~' && path@[1] != '/' ==> r is Err,
        r matches Err(e) ==> e@ == "Home directory not found"@ || (exists|name: Seq<char>|
            e@ == #[trigger] non_utf8_home_message(name)) || e@ == unsupported_tilde_message(
            path@,
        ),
{
    match home_dir() {
        Err(e) => Err(e),
        Ok(home) => {
            let r = expand_user_with(path, home.as_str());
            proof {
                if r is Ok {
                    assert(expand_user_with_spec(path@, home@) == Ok::<Seq<char>, Seq<char>>(
                        r->Ok_0@,
                    ));
                }
            }
            r
        },
    }
}

} // verus!
