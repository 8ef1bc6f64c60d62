//! Paths as text, compared component by component.

use vstd::prelude::*;
use vstd::string::*;
use crate::text::{cat2, cat3, chars_of, join, joined, same, text_of, texts};

verus! {

/// A path cut at every slash, the empty pieces between two slashes kept.
pub open spec fn pieces(s: Seq<char>) -> Seq<Seq<char>>
    decreases s.len(),
{
    if s.len() == 0 {
        seq![Seq::<char>::empty()]
    } else {
        let p = pieces(s.drop_last());
        if s.last() == '/' {
            p.push(Seq::empty())
        } else {
            p.drop_last().push(p.last().push(s.last()))
        }
    }
}

/// Whether a piece of a path names something: it is neither empty nor a single dot.
pub open spec fn names(piece: Seq<char>) -> bool {
    piece.len() > 0 && piece != seq!['.']
}

/// The pieces that name something, in order.
pub open spec fn named(ps: Seq<Seq<char>>) -> Seq<Seq<char>>
    decreases ps.len(),
{
    if ps.len() == 0 {
        ps
    } else if names(ps.last()) {
        named(ps.drop_last()).push(ps.last())
    } else {
        named(ps.drop_last())
    }
}

pub open spec fn is_absolute(s: Seq<char>) -> bool {
    s.len() > 0 && s[0] == '/'
}

/// Whether a path starts with a component that is a single dot.
pub open spec fn starts_here(s: Seq<char>) -> bool {
    s.len() > 0 && s[0] == '.' && (s.len() == 1 || s[1] == '/')
}

/// The components of a path. The root is one, a dot only at the start is one, and
/// neither a doubled slash nor a dot further on changes anything.
pub open spec fn components(s: Seq<char>) -> Seq<Seq<char>> {
    let lead: Seq<Seq<char>> = if is_absolute(s) {
        seq![seq!['/']]
    } else if starts_here(s) {
        seq![seq!['.']]
    } else {
        Seq::empty()
    };
    lead + named(pieces(s))
}

/// Whether a path is `dir` or lies under it.
pub open spec fn is_under(path: Seq<char>, dir: Seq<char>) -> bool {
    components(dir).is_prefix_of(components(path))
}

/// What lies under a folder lies under every folder that holds it.
pub proof fn under_is_transitive(path: Seq<char>, dir: Seq<char>, above: Seq<char>)
    requires
        is_under(path, dir),
        is_under(dir, above),
    ensures
        is_under(path, above),
{
    let (p, d, a) = (components(path), components(dir), components(above));
    assert(p.subrange(0, a.len() as int) =~= p.subrange(0, d.len() as int).subrange(
        0,
        a.len() as int,
    ));
}

fn keep(out: &mut Vec<String>, piece: &String)
    ensures
        texts(final(out)@) == if names(piece@) {
            texts(old(out)@).push(piece@)
        } else {
            texts(old(out)@)
        },
{
    let chars: Vec<char> = chars_of(piece.as_str());
    if chars.len() == 0 || (chars.len() == 1 && chars[0] == '.') {
        proof {
            if chars@.len() == 1 {
                assert(chars@ =~= seq!['.']);
            }
        }
    } else {
        proof {
            if piece@ == seq!['.'] {
                assert(chars@[0] == '.');
            }
        }
        out.push(piece.clone());
        proof {
            assert(texts(out@) =~= texts(old(out)@).push(piece@));
        }
    }
}

pub fn split(path: &str) -> (r: Vec<String>)
    ensures
        texts(r@) == components(path@),
{
    let chars: Vec<char> = chars_of(path);
    let mut out: Vec<String> = Vec::new();
    let n: usize = chars.len();
    if n > 0 && chars[0] == '/' {
        let mut root: String = String::new();
        root.push('/');
        out.push(root);
        proof {
            assert(root@ =~= seq!['/']);
            assert(texts(out@) =~= seq![seq!['/']]);
        }
    } else if n > 0 && chars[0] == '.' && (n == 1 || chars[1] == '/') {
        let mut here: String = String::new();
        here.push('.');
        out.push(here);
        proof {
            assert(here@ =~= seq!['.']);
            assert(texts(out@) =~= seq![seq!['.']]);
        }
    } else {
        proof {
            assert(texts(out@) =~= Seq::<Seq<char>>::empty());
        }
    }
    let ghost lead = texts(out@);
    let mut piece: String = String::new();
    let mut i: usize = 0;
    proof {
        assert(pieces(path@.take(0)).drop_last() =~= Seq::<Seq<char>>::empty());
        assert(lead + named(pieces(path@.take(0)).drop_last()) =~= lead);
    }
    while i < n
        invariant
            n == chars@.len(),
            chars@ == path@,
            i <= n,
            pieces(path@.take(i as int)).len() > 0,
            piece@ == pieces(path@.take(i as int)).last(),
            texts(out@) == lead + named(pieces(path@.take(i as int)).drop_last()),
        decreases n - i,
    {
        let ghost p = pieces(path@.take(i as int));
        let ghost q = pieces(path@.take(i + 1));
        proof {
            assert(path@.take(i + 1).drop_last() =~= path@.take(i as int));
            assert(path@.take(i + 1).last() == path@[i as int]);
        }
        if chars[i] == '/' {
            keep(&mut out, &piece);
            piece = String::new();
            proof {
                assert(q.drop_last() =~= p);
                assert(lead + named(p.drop_last()).push(p.last()) =~= (lead + named(
                    p.drop_last(),
                )).push(p.last()));
            }
        } else {
            piece.push(chars[i]);
            proof {
                assert(q.drop_last() =~= p.drop_last());
            }
        }
        i += 1;
    }
    keep(&mut out, &piece);
    proof {
        assert(path@.take(n as int) =~= path@);
        let p = pieces(path@);
        assert(lead + named(p.drop_last()).push(p.last()) =~= (lead + named(p.drop_last())).push(
            p.last(),
        ));
    }
    out
}

/// Whether the components in `head` are how those in `list` begin.
pub fn begins(list: &Vec<String>, head: &Vec<String>) -> (r: bool)
    ensures
        r == texts(head@).is_prefix_of(texts(list@)),
{
    if head.len() > list.len() {
        return false;
    }
    let mut i: usize = 0;
    while i < head.len()
        invariant
            head@.len() <= list@.len(),
            i <= head@.len(),
            forall|k: int| 0 <= k < i ==> texts(head@)[k] == texts(list@)[k],
        decreases head@.len() - i,
    {
        if !same(head[i].as_str(), list[i].as_str()) {
            proof {
                assert(texts(head@)[i as int] != texts(list@)[i as int]);
                assert(texts(list@).subrange(0, head@.len() as int)[i as int]
                    == texts(list@)[i as int]);
            }
            return false;
        }
        i += 1;
    }
    proof {
        assert(texts(list@).subrange(0, head@.len() as int) =~= texts(head@));
    }
    true
}

/// Whether `path` is `dir` or lies under it.
pub fn under(path: &str, dir: &str) -> (r: bool)
    ensures
        r == is_under(path@, dir@),
{
    begins(&split(path), &split(dir))
}

/// A path as seen from a folder that holds it, and as it is from one that does not.
pub open spec fn seen_from(path: Seq<char>, dir: Seq<char>) -> Seq<char> {
    if is_under(path, dir) {
        joined(components(path).skip(components(dir).len() as int), "/"@)
    } else {
        path
    }
}

pub fn relative(path: &str, dir: &str) -> (r: String)
    ensures
        r@ == seen_from(path@, dir@),
{
    let p: Vec<String> = split(path);
    let d: Vec<String> = split(dir);
    if !begins(&p, &d) {
        return path.to_owned();
    }
    let mut rest: Vec<String> = Vec::new();
    let mut i: usize = d.len();
    let ghost from = d@.len() as int;
    proof {
        assert(texts(rest@) =~= texts(p@).subrange(from, from));
    }
    while i < p.len()
        invariant
            0 <= from <= i <= p@.len(),
            texts(rest@) == texts(p@).subrange(from, i as int),
        decreases p@.len() - i,
    {
        let ghost before = rest@;
        rest.push(p[i].clone());
        proof {
            assert(texts(rest@) =~= texts(before).push(p@[i as int]@));
            assert(texts(p@).subrange(from, i + 1) =~= texts(p@).subrange(from, i as int).push(
                texts(p@)[i as int],
            ));
        }
        i += 1;
    }
    proof {
        assert(texts(rest@) =~= texts(p@).skip(from));
    }
    join(&rest, "/")
}

pub fn absolute(path: &str) -> (r: bool)
    ensures
        r == is_absolute(path@),
{
    let chars: Vec<char> = chars_of(path);
    chars.len() > 0 && chars[0] == '/'
}

/// The components of the folder that holds a path: none for the root or for an empty
/// path.
pub open spec fn folder_of(s: Seq<char>) -> Seq<Seq<char>> {
    let c = components(s);
    if c.len() == 0 || c.last() == seq!['/'] {
        Seq::empty()
    } else {
        c.drop_last()
    }
}

pub fn folder(path: &str) -> (r: Vec<String>)
    ensures
        texts(r@) == folder_of(path@),
{
    let mut parts: Vec<String> = split(path);
    let ghost all = texts(parts@);
    if parts.len() == 0 {
        return parts;
    }
    if same(parts[parts.len() - 1].as_str(), "/") {
        proof {
            reveal_strlit("/");
            assert("/"@ =~= seq!['/']);
            assert(texts(Seq::<String>::empty()) =~= Seq::<Seq<char>>::empty());
        }
        return Vec::new();
    }
    proof {
        reveal_strlit("/");
        assert("/"@ =~= seq!['/']);
        assert(all.last() == parts@.last()@);
    }
    let _ = parts.pop();
    proof {
        assert(texts(parts@) =~= all.drop_last());
    }
    parts
}

/// The last component of a path, where it names a file or folder.
pub open spec fn file_name_of(s: Seq<char>) -> Option<Seq<char>> {
    let c = components(s);
    if c.len() == 0 || c.last() == seq!['/'] || c.last() == seq!['.'] || c.last() == seq![
        '.',
        '.',
    ] {
        None
    } else {
        Some(c.last())
    }
}

pub fn file_name(path: &str) -> (r: Option<String>)
    ensures
        crate::text::opt_text(r) == file_name_of(path@),
{
    let parts: Vec<String> = split(path);
    let n: usize = parts.len();
    if n == 0 {
        return None;
    }
    proof {
        reveal_strlit("/");
        reveal_strlit(".");
        reveal_strlit("..");
        assert("/"@ =~= seq!['/']);
        assert("."@ =~= seq!['.']);
        assert(".."@ =~= seq!['.', '.']);
        assert(texts(parts@).last() == parts@[n - 1]@);
    }
    let last: &str = parts[n - 1].as_str();
    if same(last, "/") || same(last, ".") || same(last, "..") {
        None
    } else {
        Some(parts[n - 1].clone())
    }
}

/// Where the last dot of a name stands, or -1.
pub open spec fn last_dot(s: Seq<char>) -> int
    decreases s.len(),
{
    if s.len() == 0 {
        -1
    } else if s.last() == '.' {
        s.len() - 1
    } else {
        last_dot(s.drop_last())
    }
}

/// What stands behind the last dot of a file's name, unless that dot is how the name
/// starts.
pub open spec fn extension_of(s: Seq<char>) -> Option<Seq<char>> {
    match file_name_of(s) {
        None => None,
        Some(name) => if last_dot(name) <= 0 {
            None
        } else {
            Some(name.skip(last_dot(name) + 1))
        },
    }
}

pub fn extension(path: &str) -> (r: Option<String>)
    ensures
        crate::text::opt_text(r) == extension_of(path@),
{
    match file_name(path) {
        None => None,
        Some(name) => {
            let chars: Vec<char> = chars_of(name.as_str());
            let mut i: usize = chars.len();
            proof {
                assert(chars@.take(i as int) =~= chars@);
            }
            while i > 0 && chars[i - 1] != '.'
                invariant
                    i <= chars@.len(),
                    last_dot(chars@) == last_dot(chars@.take(i as int)),
                decreases i,
            {
                proof {
                    assert(chars@.take(i as int).drop_last() =~= chars@.take(i - 1));
                }
                i -= 1;
            }
            if i <= 1 {
                None
            } else {
                proof {
                    assert(chars@.subrange(i as int, chars@.len() as int) =~= chars@.skip(
                        i as int,
                    ));
                }
                Some(text_of(&chars, i, chars.len()))
            }
        },
    }
}

/// The last piece of a path is what stands behind its last slash.
proof fn lemma_last_piece(s: Seq<char>)
    ensures
        pieces(s).len() > 0,
        pieces(s).last().len() <= s.len(),
        pieces(s).last() == s.skip(s.len() - pieces(s).last().len()),
        !pieces(s).last().contains('/'),
        pieces(s).last().len() < s.len() ==> s[s.len() - pieces(s).last().len() - 1] == '/',
    decreases s.len(),
{
    if s.len() == 0 {
        assert(pieces(s).last() =~= s.skip(0));
    } else {
        let front = s.drop_last();
        lemma_last_piece(front);
        let p = pieces(front).last();
        let q = pieces(s).last();
        if s.last() == '/' {
            assert(q =~= s.skip(s.len() as int));
        } else {
            assert(q == p.push(s.last()));
            assert(q =~= s.skip(s.len() - q.len()));
            assert forall|k: int| 0 <= k < q.len() implies q[k] != '/' by {
                if k < p.len() {
                    assert(p.contains(p[k]));
                }
            }
        }
    }
}

proof fn lemma_last_dot(s: Seq<char>, at: int)
    requires
        0 <= at < s.len(),
        s[at] == '.',
        forall|k: int| at < k < s.len() ==> s[k] != '.',
    ensures
        last_dot(s) == at,
    decreases s.len(),
{
    if at < s.len() - 1 {
        lemma_last_dot(s.drop_last(), at);
    }
}

/// A file's extension is what stands behind the last dot of its name, wherever the file
/// is: a path that ends in a stem, a dot and letters without a dot or a slash has those for
/// its extension, and its name is what stands behind the last slash.
pub proof fn an_extension_ends_the_name(s: Seq<char>, ext: Seq<char>)
    requires
        ext.len() > 0,
        !ext.contains('.'),
        !ext.contains('/'),
        s.len() >= ext.len() + 2,
        s[s.len() - ext.len() - 2] != '/',
        s[s.len() - ext.len() - 1] == '.',
        s.skip(s.len() - ext.len()) == ext,
    ensures
        extension_of(s) == Some(ext),
        file_name_of(s) matches Some(name) && name.is_suffix_of(s) && !name.contains('/'),
{
    lemma_last_piece(s);
    let name = pieces(s).last();
    let n = s.len() as int;
    let e = ext.len() as int;
    let skip = n - name.len();
    assert(name.len() >= e + 2) by {
        if name.len() < e + 2 {
            assert(s[n - name.len() - 1] == '/');
            if name.len() < e {
                assert(ext[e - name.len() - 1] == s[n - name.len() - 1]);
                assert(ext.contains('/'));
            }
        }
    }
    assert(names(name));
    assert(named(pieces(s)).last() == name);
    assert(components(s).last() == name);
    let at = name.len() - e - 1;
    assert(name[at] == s[n - e - 1]);
    assert forall|k: int| at < k < name.len() implies name[k] != '.' by {
        assert(name[k] == s[skip + k]);
        assert(ext[k - at - 1] == s[skip + k]);
        assert(ext.contains(ext[k - at - 1]));
    }
    lemma_last_dot(name, at);
    assert(name.skip(at + 1) =~= ext);
    assert(name =~= s.subrange(skip, n));
}

/// The names of a path with each `..` and the name before it taken out.
pub open spec fn folded_names(ns: Seq<Seq<char>>) -> Seq<Seq<char>>
    decreases ns.len(),
{
    if ns.len() == 0 {
        ns
    } else {
        let front = folded_names(ns.drop_last());
        if ns.last() != seq!['.', '.'] {
            front.push(ns.last())
        } else if front.len() == 0 {
            front
        } else {
            front.drop_last()
        }
    }
}

/// Going into a folder and out of it again leads nowhere, a path without a way out is its own,
/// and none is left in what was folded.
pub proof fn in_and_out_again_leads_nowhere(ns: Seq<Seq<char>>, name: Seq<char>)
    ensures
        name != seq!['.', '.'] ==> folded_names(ns.push(name).push(seq!['.', '.'])) == folded_names(
            ns,
        ),
        name != seq!['.', '.'] ==> folded_names(ns.push(name)) == folded_names(ns).push(name),
        !ns.contains(seq!['.', '.']) ==> folded_names(ns) == ns,
        !folded_names(ns).contains(seq!['.', '.']),
    decreases ns.len(),
{
    let up = seq!['.', '.'];
    assert(ns.push(name).drop_last() =~= ns);
    assert(ns.push(name).push(up).drop_last() =~= ns.push(name));
    assert(folded_names(ns).push(name).drop_last() =~= folded_names(ns));
    if name != up {
        assert(folded_names(ns.push(name)) == folded_names(ns).push(name));
        assert(folded_names(ns.push(name).push(up)) == folded_names(ns.push(name)).drop_last());
    }
    if ns.len() > 0 {
        let front = ns.drop_last();
        in_and_out_again_leads_nowhere(front, name);
        let f = folded_names(front);
        assert forall|k: int| 0 <= k < f.len() implies f[k] != up by {
            assert(f.contains(f[k]));
        }
        if !ns.contains(up) {
            assert(ns[ns.len() - 1] != up);
            assert(!front.contains(up)) by {
                if front.contains(up) {
                    let k = choose|k: int| 0 <= k < front.len() && front[k] == up;
                    assert(ns[k] == up);
                }
            }
            assert(front.push(ns.last()) =~= ns);
        }
    }
}

/// An absolute path with its dots folded away and no link followed.
pub open spec fn folded(s: Seq<char>) -> Seq<char> {
    "/"@ + joined(folded_names(named(pieces(s))), "/"@)
}

/// An absolute path with its dots folded away and no link followed.
pub fn fold(path: &str) -> (r: String)
    requires
        is_absolute(path@),
    ensures
        r@ == folded(path@),
{
    let parts: Vec<String> = split(path);
    let ghost ns = named(pieces(path@));
    let mut kept: Vec<String> = Vec::new();
    let mut i: usize = 1;
    proof {
        reveal_strlit("..");
        assert(".."@ =~= seq!['.', '.']);
        assert(texts(parts@).len() == 1 + ns.len());
        assert(texts(kept@) =~= folded_names(ns.take(0)));
    }
    while i < parts.len()
        invariant
            ".."@ == seq!['.', '.'],
            texts(parts@) == seq![seq!['/']] + ns,
            1 <= i <= parts@.len(),
            parts@.len() == 1 + ns.len(),
            texts(kept@) == folded_names(ns.take(i - 1)),
        decreases parts@.len() - i,
    {
        proof {
            assert(texts(parts@)[i as int] == parts@[i as int]@);
            assert((seq![seq!['/']] + ns)[i as int] == ns[i - 1]);
            assert(ns.take(i as int).drop_last() =~= ns.take(i - 1));
            assert(ns.take(i as int).last() == ns[i - 1]);
        }
        let ghost before = kept@;
        if same(parts[i].as_str(), "..") {
            if kept.len() > 0 {
                let _ = kept.pop();
                proof {
                    assert(texts(kept@) =~= texts(before).drop_last());
                }
            }
        } else {
            kept.push(parts[i].clone());
            proof {
                assert(texts(kept@) =~= texts(before).push(parts@[i as int]@));
            }
        }
        i += 1;
    }
    proof {
        assert(ns.take(ns.len() as int) =~= ns);
    }
    let rest: String = join(&kept, "/");
    cat2("/", rest.as_str())
}

/// The path of what has a plain name in a folder.
pub open spec fn inside(dir: Seq<char>, name: Seq<char>) -> Seq<char> {
    if dir.len() == 0 {
        name
    } else if dir.last() == '/' {
        dir + name
    } else {
        dir + "/"@ + name
    }
}

pub fn path_in(dir: &str, name: &str) -> (r: String)
    ensures
        r@ == inside(dir@, name@),
{
    let chars: Vec<char> = chars_of(dir);
    if chars.len() == 0 {
        name.to_owned()
    } else if chars[chars.len() - 1] == '/' {
        cat2(dir, name)
    } else {
        cat3(dir, "/", name)
    }
}

/// What lies under a folder is what starts with its components: a folder lies under itself,
/// and what only starts with the same letters does not.
pub proof fn under_is_by_component(path: Seq<char>, dir: Seq<char>)
    ensures
        is_under(dir, dir),
        is_under(path, dir) <==> components(path).len() >= components(dir).len() && components(
            path,
        ).take(components(dir).len() as int) == components(dir),
{
    let (p, d) = (components(path), components(dir));
    assert(d.subrange(0, d.len() as int) =~= d);
    if p.len() >= d.len() {
        assert(p.take(d.len() as int) =~= p.subrange(0, d.len() as int));
    }
}

/// What has a plain name in a folder ends in that name, a slash before it, and starts with
/// the folder.
pub proof fn what_is_in_a_folder_starts_with_it(dir: Seq<char>, name: Seq<char>)
    ensures
        dir.is_prefix_of(inside(dir, name)),
        name.is_suffix_of(inside(dir, name)),
        dir.len() > 0 ==> inside(dir, name)[inside(dir, name).len() - name.len() - 1] == '/',
        inside(dir, name).len() <= dir.len() + 1 + name.len(),
{
    reveal_strlit("/");
    let at = inside(dir, name);
    assert(at.subrange(0, dir.len() as int) =~= dir);
    assert(at.subrange(at.len() - name.len(), at.len() as int) =~= name);
}

/// A path as seen from a folder that holds it is what is left of it behind the folder, and
/// elsewhere it is itself.
pub proof fn a_path_is_seen_from_its_folder(path: Seq<char>, dir: Seq<char>)
    ensures
        !is_under(path, dir) ==> seen_from(path, dir) == path,
        is_under(path, dir) && components(path).len() == components(dir).len() + 1 ==> seen_from(
            path,
            dir,
        ) == components(path).last(),
{
    if is_under(path, dir) && components(path).len() == components(dir).len() + 1 {
        let rest = components(path).skip(components(dir).len() as int);
        assert(rest.len() == 1 && rest[0] == components(path).last());
    }
}

proof fn lemma_pieces_grow(s: Seq<char>, name: Seq<char>)
    requires
        !name.contains('/'),
    ensures
        pieces(s).len() > 0,
        pieces(s + name) == pieces(s).drop_last().push(pieces(s).last() + name),
    decreases name.len(),
{
    lemma_last_piece(s);
    if name.len() == 0 {
        assert(s + name =~= s);
        assert(pieces(s).last() + name =~= pieces(s).last());
        assert(pieces(s).drop_last().push(pieces(s).last()) =~= pieces(s));
    } else {
        let front = name.drop_last();
        assert(name.contains(name.last()));
        assert(!front.contains('/')) by {
            if front.contains('/') {
                let k = choose|k: int| 0 <= k < front.len() && front[k] == '/';
                assert(name[k] == '/');
            }
        }
        lemma_pieces_grow(s, front);
        assert((s + name).drop_last() =~= s + front);
        let p = pieces(s + front);
        assert(p.drop_last() =~= pieces(s).drop_last());
        assert(p.last().push(name.last()) =~= pieces(s).last() + name);
    }
}

/// A name without a slash is one component, and one more behind a folder: a slash at the end
/// adds none. What has a name in a folder lies under it, has it for its folder, and is seen
/// from it by that name.
pub proof fn a_name_is_one_more_component(dir: Seq<char>, name: Seq<char>)
    requires
        dir.len() > 0,
        name.len() > 0,
        name != seq!['.'],
        !name.contains('/'),
    ensures
        components(name) == seq![name],
        components(dir + seq!['/']) == components(dir),
        components(dir + seq!['/'] + name) == components(dir).push(name),
        components(inside(dir, name)) == components(dir).push(name),
        is_under(inside(dir, name), dir),
        folder_of(inside(dir, name)) == components(dir),
        seen_from(inside(dir, name), dir) == name,
{
    reveal_strlit("/");
    assert("/"@ =~= seq!['/']);
    let slashed = dir + seq!['/'];
    assert(slashed.drop_last() =~= dir);
    lemma_last_piece(dir);
    lemma_pieces_grow(Seq::empty(), name);
    assert(Seq::<char>::empty() + name =~= name);
    assert(pieces(Seq::<char>::empty()).drop_last() =~= Seq::empty());
    assert(pieces(Seq::<char>::empty()).last() + name =~= name);
    assert(name.contains(name[0]));
    if name.len() > 1 {
        assert(name.contains(name[1]));
    } else if name[0] == '.' {
        assert(name =~= seq!['.']);
    }
    assert(pieces(name) =~= seq![name]);
    assert(pieces(name).drop_last() =~= Seq::empty());
    assert(named(pieces(name).drop_last()) =~= Seq::empty());
    assert(components(name) =~= seq![name]);
    assert(pieces(slashed) == pieces(dir).push(Seq::empty()));
    assert(pieces(slashed).drop_last() =~= pieces(dir));
    assert(named(pieces(slashed)) == named(pieces(dir)));
    assert(slashed[0] == dir[0]);
    assert(starts_here(slashed) == starts_here(dir));
    lemma_name_behind(slashed, name);
    assert(components(slashed + name) =~= components(dir).push(name));
    let at = inside(dir, name);
    if dir.last() == '/' {
        lemma_name_behind(dir, name);
    } else {
        assert(dir + "/"@ + name =~= slashed + name);
    }
    let (c, d) = (components(at), components(dir));
    assert(c == d.push(name));
    assert(c.subrange(0, d.len() as int) =~= d);
    assert(name != seq!['/']) by {
        if name == seq!['/'] {
            assert(name[0] == '/');
        }
    }
    assert(c.drop_last() =~= d);
    assert(c.skip(d.len() as int) =~= seq![name]);
}

proof fn lemma_name_behind(dir: Seq<char>, name: Seq<char>)
    requires
        dir.len() > 0,
        dir.last() == '/',
        name.len() > 0,
        name != seq!['.'],
        !name.contains('/'),
    ensures
        components(dir + name) == components(dir).push(name),
{
    lemma_last_piece(dir);
    lemma_pieces_grow(dir, name);
    let p = pieces(dir);
    assert(p.last().len() == 0) by {
        assert(pieces(dir) == pieces(dir.drop_last()).push(Seq::empty()));
    }
    assert(p.last() + name =~= name);
    assert(pieces(dir + name) == p.drop_last().push(name));
    assert(pieces(dir + name).drop_last() =~= p.drop_last());
    assert(named(p) == named(p.drop_last()));
    assert(named(pieces(dir + name)) == named(p).push(name));
    assert((dir + name)[0] == dir[0]);
    if dir.len() > 1 {
        assert((dir + name)[1] == dir[1]);
    }
    assert(is_absolute(dir + name) == is_absolute(dir));
    assert(starts_here(dir + name) == starts_here(dir));
    assert(components(dir + name) =~= components(dir).push(name));
}

/// What lies two folders down is seen by both names with a slash between them, and an absolute
/// path without a way out folds to its own components behind the root.
pub proof fn a_folded_path_is_its_components(
    path: Seq<char>,
    dir: Seq<char>,
    a: Seq<char>,
    b: Seq<char>,
)
    requires
        components(path) == components(dir).push(a).push(b),
    ensures
        seen_from(path, dir) == a + seq!['/'] + b,
        named(pieces(path)) == seq![a, b] && a != seq!['.', '.'] && b != seq!['.', '.'] ==> folded(
            path,
        ) == seq!['/'] + a + seq!['/'] + b,
{
    reveal_strlit("/");
    assert("/"@ =~= seq!['/']);
    let (p, d) = (components(path), components(dir));
    assert(p.subrange(0, d.len() as int) =~= d);
    let two = seq![a, b];
    assert(p.skip(d.len() as int) =~= two);
    assert(two.drop_last() =~= seq![a]);
    assert(joined(seq![a], "/"@) == a);
    assert(joined(two, "/"@) == a + "/"@ + b);
    if named(pieces(path)) == two && a != seq!['.', '.'] && b != seq!['.', '.'] {
        assert(!two.contains(seq!['.', '.']));
        in_and_out_again_leads_nowhere(two, a);
        assert("/"@ + (a + "/"@ + b) =~= seq!['/'] + a + seq!['/'] + b);
    }
}

} // verus!
