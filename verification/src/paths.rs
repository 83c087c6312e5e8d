use vstd::prelude::*;

use crate::text::{append_chars, chars_eq, chars_of, copy_chars, string_from, views};

verus! {

// Paths are held as strings with `/` as the only separator. Their meaning is
// given by their components: an optional root (`/`) or leading current-dir
// (`.`) marker, followed by the non-empty pieces between separators, with `.`
// pieces dropped. Each component is written as its text (`/`, `.`, `..` or a
// name), so equal components have equal text.

/// Whether a piece between separators is kept as a component.
pub open spec fn keep_piece(c: Seq<char>) -> bool {
    c.len() > 0 && c != seq!['.']
}

/// Adds a finished piece to the components found so far.
pub open spec fn flush(done: Seq<Seq<char>>, cur: Seq<char>) -> Seq<Seq<char>> {
    if keep_piece(cur) {
        done.push(cur)
    } else {
        done
    }
}

/// Left-to-right scan of a path: the kept pieces so far and the open piece.
pub open spec fn scan(p: Seq<char>) -> (Seq<Seq<char>>, Seq<char>)
    decreases p.len(),
{
    if p.len() == 0 {
        (Seq::empty(), Seq::empty())
    } else {
        let (d, c) = scan(p.drop_last());
        if p.last() == '/' {
            (flush(d, c), Seq::empty())
        } else {
            (d, c.push(p.last()))
        }
    }
}

/// The named (and `..`) components of a path.
pub open spec fn body_components(p: Seq<char>) -> Seq<Seq<char>> {
    flush(scan(p).0, scan(p).1)
}

/// The marker component a path starts with, if any.
pub open spec fn head_components(p: Seq<char>) -> Seq<Seq<char>> {
    if p.len() > 0 && p[0] == '/' {
        seq![seq!['/']]
    } else if (p.len() == 1 && p[0] == '.') || (p.len() > 1 && p[0] == '.' && p[1] == '/') {
        seq![seq!['.']]
    } else {
        Seq::empty()
    }
}

/// The components of a path, as `Path::components` yields them.
pub open spec fn components(p: Seq<char>) -> Seq<Seq<char>> {
    head_components(p) + body_components(p)
}

/// The last component when it is a name (`Path::file_name`).
pub open spec fn file_name(p: Seq<char>) -> Option<Seq<char>> {
    let c = components(p);
    if c.len() == 0 {
        None
    } else {
        let last = c.last();
        if last == seq!['/'] || last == seq!['.'] || last == seq!['.', '.'] {
            None
        } else {
            Some(last)
        }
    }
}

/// Index of the last `.` in `s`, or -1.
pub open spec fn last_dot(s: Seq<char>) -> int
    decreases s.len(),
{
    if s.len() == 0 {
        -1
    } else if s.last() == '.' {
        s.len() - 1
    } else {
        last_dot(s.drop_last())
    }
}

/// The extension of a file name: what follows its last `.`, unless there is
/// no `.` or the only one starts the name.
pub open spec fn name_extension(name: Seq<char>) -> Option<Seq<char>> {
    let k = last_dot(name);
    if k <= 0 {
        None
    } else {
        Some(name.subrange(k + 1, name.len() as int))
    }
}

/// The extension of a path (`Path::extension`).
pub open spec fn extension(p: Seq<char>) -> Option<Seq<char>> {
    match file_name(p) {
        Some(name) => name_extension(name),
        None => None,
    }
}

/// Components joined with `/` (`[T]::join("/")`).
pub open spec fn join_all(parts: Seq<Seq<char>>) -> Seq<char>
    decreases parts.len(),
{
    if parts.len() == 0 {
        Seq::empty()
    } else if parts.len() == 1 {
        parts[0]
    } else {
        join_all(parts.drop_last()) + seq!['/'] + parts.last()
    }
}

/// `base` extended by the relative path `rel` (`Path::join` with a relative argument).
pub open spec fn path_join(base: Seq<char>, rel: Seq<char>) -> Seq<char> {
    if base.len() == 0 || base.last() == '/' {
        base + rel
    } else {
        base + seq!['/'] + rel
    }
}

proof fn lemma_scan_step(p: Seq<char>, i: int)
    requires
        0 <= i < p.len(),
    ensures
        scan(p.subrange(0, i + 1)) == (if p[i] == '/' {
            (flush(scan(p.subrange(0, i)).0, scan(p.subrange(0, i)).1), Seq::<char>::empty())
        } else {
            (scan(p.subrange(0, i)).0, scan(p.subrange(0, i)).1.push(p[i]))
        }),
{
    assert(p.subrange(0, i + 1).drop_last() =~= p.subrange(0, i));
}

/// Whether `c` is the one-character text `ch`.
fn is_single(c: &[char], ch: char) -> (r: bool)
    ensures
        r == (c@ == seq![ch]),
{
    if c.len() == 1 && c[0] == ch {
        assert(c@ =~= seq![ch]);
        true
    } else {
        proof {
            if c@ == seq![ch] {
                assert(c@.len() == 1);
            }
        }
        false
    }
}

/// The components of a path given as characters.
pub fn split_components(p: &[char]) -> (r: Vec<Vec<char>>)
    ensures
        views(r@) == components(p@),
{
    let mut r: Vec<Vec<char>> = Vec::new();
    let n = p.len();
    if n > 0 && p[0] == '/' {
        let mut m: Vec<char> = Vec::new();
        m.push('/');
        assert(m@ =~= seq!['/']);
        r.push(m);
        assert(views(r@) =~= seq![seq!['/']]);
    } else if (n == 1 && p[0] == '.') || (n > 1 && p[0] == '.' && p[1] == '/') {
        let mut m: Vec<char> = Vec::new();
        m.push('.');
        assert(m@ =~= seq!['.']);
        r.push(m);
        assert(views(r@) =~= seq![seq!['.']]);
    } else {
        assert(views(r@) =~= Seq::<Seq<char>>::empty());
    }
    let ghost head = views(r@);
    assert(head =~= head_components(p@));
    let mut cur: Vec<char> = Vec::new();
    let mut i: usize = 0;
    assert(p@.subrange(0, 0) =~= Seq::<char>::empty());
    while i < n
        invariant
            n == p@.len(),
            i <= n,
            head == head_components(p@),
            views(r@) == head + scan(p@.subrange(0, i as int)).0,
            cur@ == scan(p@.subrange(0, i as int)).1,
        decreases n - i,
    {
        proof {
            lemma_scan_step(p@, i as int);
        }
        if p[i] == '/' {
            let ghost before = views(r@);
            if cur.len() > 0 && !is_single(&cur, '.') {
                let piece = copy_chars(&cur);
                r.push(piece);
                assert(views(r@) =~= before.push(cur@));
            }
            cur = Vec::new();
            proof {
                let s = scan(p@.subrange(0, i as int));
                assert(views(r@) =~= head + flush(s.0, s.1));
            }
        } else {
            cur.push(p[i]);
        }
        i += 1;
    }
    assert(p@.subrange(0, n as int) =~= p@);
    let ghost before = views(r@);
    if cur.len() > 0 && !is_single(&cur, '.') {
        r.push(cur);
        assert(views(r@) =~= before.push(scan(p@).1));
    }
    assert(views(r@) =~= components(p@));
    r
}

/// The file name of a path, if its last component is a name.
pub fn path_file_name(p: &[char]) -> (r: Option<Vec<char>>)
    ensures
        match r {
            Some(v) => file_name(p@) == Some(v@),
            None => file_name(p@) is None,
        },
{
    let comps = split_components(p);
    let k = comps.len();
    if k == 0 {
        return None;
    }
    let ghost cv = views(comps@);
    assert(cv[k - 1] == comps@[k - 1]@);
    let last = &comps[k - 1];
    if is_single(last, '/') || is_single(last, '.') || (last.len() == 2 && last[0] == '.'
        && last[1] == '.') {
        proof {
            if last@.len() == 2 && last@[0] == '.' && last@[1] == '.' {
                assert(last@ =~= seq!['.', '.']);
            }
        }
        None
    } else {
        proof {
            if last@ == seq!['.', '.'] {
                assert(last@.len() == 2);
            }
        }
        Some(copy_chars(last))
    }
}

/// The last `.` lies inside the string (or is -1 when there is none).
pub proof fn lemma_last_dot_range(s: Seq<char>)
    ensures
        -1 <= last_dot(s) < s.len(),
        last_dot(s) >= 0 ==> s[last_dot(s)] == '.',
    decreases s.len(),
{
    if s.len() > 0 && s.last() != '.' {
        lemma_last_dot_range(s.drop_last());
    }
}

/// The extension of a file name (see `name_extension`).
pub fn name_ext(name: &[char]) -> (r: Option<Vec<char>>)
    ensures
        match r {
            Some(v) => name_extension(name@) == Some(v@),
            None => name_extension(name@) is None,
        },
{
    let n = name.len();
    let mut j: usize = n;
    // invariant: last_dot(name) == last_dot(name[0..j]) while no dot found in [j, n)
    assert(name@.subrange(0, n as int) =~= name@);
    while j > 0 && name[j - 1] != '.'
        invariant
            j <= n,
            n == name@.len(),
            last_dot(name@) == last_dot(name@.subrange(0, j as int)),
        decreases j,
    {
        assert(name@.subrange(0, j as int).drop_last() =~= name@.subrange(0, j as int - 1));
        j -= 1;
    }
    if j == 0 {
        assert(last_dot(name@.subrange(0, 0)) == -1);
        return None;
    }
    assert(last_dot(name@.subrange(0, j as int)) == j - 1);
    if j == 1 {
        return None;
    }
    let mut ext: Vec<char> = Vec::new();
    let mut i: usize = j;
    while i < n
        invariant
            j <= i <= n,
            n == name@.len(),
            ext@ == name@.subrange(j as int, i as int),
        decreases n - i,
    {
        ext.push(name[i]);
        i += 1;
    }
    Some(ext)
}

/// The extension of a path.
pub fn path_extension(p: &[char]) -> (r: Option<Vec<char>>)
    ensures
        match r {
            Some(v) => extension(p@) == Some(v@),
            None => extension(p@) is None,
        },
{
    match path_file_name(p) {
        Some(name) => name_ext(&name),
        None => None,
    }
}

/// `base` extended by the relative path `rel`.
pub fn join_path(base: &[char], rel: &[char]) -> (r: Vec<char>)
    ensures
        r@ == path_join(base@, rel@),
{
    let mut r = copy_chars(base);
    if base.len() > 0 && base[base.len() - 1] != '/' {
        r.push('/');
    }
    append_chars(&mut r, rel);
    r
}

/// Where the per-user data file `name` lives: under `.local/share/tj` in the
/// home directory, or in the current directory when there is no home.
pub open spec fn data_file_spec(home: Option<Seq<char>>, name: Seq<char>) -> Seq<char> {
    let base = match home {
        Some(h) => h,
        None => seq!['.'],
    };
    path_join(base, seq!['.', 'l', 'o', 'c', 'a', 'l', '/', 's', 'h', 'a', 'r', 'e', '/', 't', 'j', '/'] + name)
}

/// The path of the data file `name` for the given home directory.
pub fn data_file_path(home: Option<&str>, name: &str) -> (r: String)
    ensures
        r@ == data_file_spec(match home { Some(h) => Some(h@), None => None }, name@),
{
    let base: Vec<char> = match home {
        Some(h) => chars_of(h),
        None => vec!['.'],
    };
    let mut rel: Vec<char> = vec!['.', 'l', 'o', 'c', 'a', 'l', '/', 's', 'h', 'a', 'r', 'e', '/', 't', 'j', '/'];
    let nm = chars_of(name);
    append_chars(&mut rel, &nm);
    let joined = join_path(&base, &rel);
    proof {
        let b = match home { Some(h) => h@, None => seq!['.'] };
        assert(base@ == b);
    }
    string_from(&joined)
}

/// The file name of the BPM/cue cache.
pub open spec fn cache_file_name() -> Seq<char> {
    seq!['c', 'a', 'c', 'h', 'e', '.', 'j', 's', 'o', 'n']
}

/// Where the BPM/cue cache is stored (`$HOME/.local/share/tj/cache.json`).
pub fn cache_path(home: Option<&str>) -> (r: String)
    ensures
        r@ == data_file_spec(match home { Some(h) => Some(h@), None => None }, cache_file_name()),
{
    let name = string_from(&['c', 'a', 'c', 'h', 'e', '.', 'j', 's', 'o', 'n']);
    assert(name@ =~= cache_file_name());
    data_file_path(home, name.as_str())
}

} // verus!

verus! {

/// Number of leading components two paths share.
pub open spec fn common_len(a: Seq<Seq<char>>, b: Seq<Seq<char>>) -> nat
    decreases a.len(),
{
    if a.len() == 0 || b.len() == 0 || a[0] != b[0] {
        0
    } else {
        1 + common_len(a.drop_first(), b.drop_first())
    }
}

/// `n` copies of `..`.
pub open spec fn ups(n: nat) -> Seq<Seq<char>> {
    Seq::new(n, |i: int| seq!['.', '.'])
}

/// How `target` is written relative to `base`: `./` and what is left of
/// `target`'s text after `base`'s components when `base` is a leading part of
/// `target`, otherwise enough `..` to reach the shared part followed by the
/// rest of `target`'s components.
pub open spec fn relative_path_spec(base: Seq<char>, target: Seq<char>) -> Seq<char> {
    let bc = components(base);
    let tc = components(target);
    if bc.is_prefix_of(tc) {
        seq!['.', '/'] + strip_rest(target, bc.len() as int)
    } else {
        let common = common_len(bc, tc);
        join_all(ups((bc.len() - common) as nat) + tc.skip(common as int))
    }
}

/// How `path` is shown below `root`: what is left of its text after `root`'s
/// components when `root` is a leading part of it, the path itself otherwise.
pub open spec fn display_below_spec(path: Seq<char>, root: Seq<char>) -> Seq<char> {
    let rc = components(root);
    let pc = components(path);
    if rc.is_prefix_of(pc) {
        strip_rest(path, rc.len() as int)
    } else {
        path
    }
}

proof fn lemma_common_len(a: Seq<Seq<char>>, b: Seq<Seq<char>>, k: int)
    requires
        0 <= k <= a.len(),
        k <= b.len(),
        forall|i: int| 0 <= i < k ==> a[i] == b[i],
        k == a.len() || k == b.len() || a[k] != b[k],
    ensures
        common_len(a, b) == k,
    decreases k,
{
    if k > 0 {
        lemma_common_len(a.drop_first(), b.drop_first(), k - 1);
    }
}

proof fn lemma_join_all_step(parts: Seq<Seq<char>>, i: int)
    requires
        0 <= i < parts.len(),
    ensures
        join_all(parts.take(i + 1)) == if i == 0 {
            parts[0]
        } else {
            join_all(parts.take(i)) + seq!['/'] + parts[i]
        },
{
    assert(parts.take(i + 1).drop_last() =~= parts.take(i));
}

/// Components joined with `/`.
pub fn join_components(parts: &Vec<Vec<char>>) -> (r: Vec<char>)
    ensures
        r@ == join_all(views(parts@)),
{
    let mut r: Vec<char> = Vec::new();
    let mut i: usize = 0;
    let ghost pv = views(parts@);
    assert(pv.take(0) =~= Seq::<Seq<char>>::empty());
    while i < parts.len()
        invariant
            i <= parts@.len(),
            pv == views(parts@),
            r@ == join_all(pv.take(i as int)),
        decreases parts@.len() - i,
    {
        proof {
            lemma_join_all_step(pv, i as int);
        }
        if i > 0 {
            r.push('/');
        }
        append_chars(&mut r, &parts[i]);
        i += 1;
    }
    assert(pv.take(parts@.len() as int) =~= pv);
    r
}

/// Whether `a` is a leading part of `b`, and how many leading components they share.
fn shared_prefix(a: &Vec<Vec<char>>, b: &Vec<Vec<char>>) -> (r: (bool, usize))
    ensures
        r.0 == views(a@).is_prefix_of(views(b@)),
        r.1 == common_len(views(a@), views(b@)),
        r.1 <= a@.len(),
        r.1 <= b@.len(),
{
    let ghost av = views(a@);
    let ghost bv = views(b@);
    let mut k: usize = 0;
    while k < a.len() && k < b.len() && chars_eq(&a[k], &b[k])
        invariant
            k <= a@.len(),
            k <= b@.len(),
            av == views(a@),
            bv == views(b@),
            forall|i: int| 0 <= i < k ==> av[i] == bv[i],
        decreases a@.len() - k,
    {
        proof {
            assert(av[k as int] == a@[k as int]@);
            assert(bv[k as int] == b@[k as int]@);
        }
        k += 1;
    }
    proof {
        if k < a@.len() && k < b@.len() {
            assert(av[k as int] == a@[k as int]@);
            assert(bv[k as int] == b@[k as int]@);
        }
        lemma_common_len(av, bv, k as int);
        if k == a@.len() {
            assert(av.is_prefix_of(bv)) by {
                assert(forall|i: int| 0 <= i < av.len() ==> av[i] == bv[i]);
            }
        } else {
            if av.is_prefix_of(bv) {
                assert(av[k as int] == bv[k as int]);
            }
        }
    }
    (k == a.len(), k)
}

/// A human-readable path from `base` to `target` using `./` and `../` notation.
pub fn relative_path(base: &str, target: &str) -> (r: String)
    ensures
        r@ == relative_path_spec(base@, target@),
{
    let tchars = chars_of(target);
    let bc = split_components(&chars_of(base));
    let tc = split_components(&tchars);
    let (is_prefix, common) = shared_prefix(&bc, &tc);
    if is_prefix {
        let s = strip_rest_exec(&tchars, bc.len());
        let mut out: Vec<char> = vec!['.', '/'];
        append_chars(&mut out, &s);
        string_from(&out)
    } else {
        let up = bc.len() - common;
        let mut parts: Vec<Vec<char>> = Vec::new();
        let mut i: usize = 0;
        while i < up
            invariant
                i <= up,
                views(parts@) == ups(i as nat),
            decreases up - i,
        {
            let ghost before = views(parts@);
            let mut dd: Vec<char> = Vec::new();
            dd.push('.');
            dd.push('.');
            assert(dd@ =~= seq!['.', '.']);
            parts.push(dd);
            assert(views(parts@) =~= before.push(seq!['.', '.']));
            assert(views(parts@) =~= ups((i + 1) as nat));
            i += 1;
        }
        let mut j: usize = common;
        let ghost tv = views(tc@);
        while j < tc.len()
            invariant
                common <= j <= tc@.len(),
                tv == views(tc@),
                views(parts@) == ups(up as nat) + tv.subrange(common as int, j as int),
            decreases tc@.len() - j,
        {
            let ghost before = views(parts@);
            parts.push(copy_chars(&tc[j]));
            assert(tv[j as int] == tc@[j as int]@);
            assert(views(parts@) =~= before.push(tv[j as int]));
            assert(views(parts@) =~= ups(up as nat) + tv.subrange(common as int, j + 1));
            j += 1;
        }
        let s = join_components(&parts);
        string_from(&s)
    }
}

/// How `path` is shown below `root` (see `display_below_spec`).
pub fn display_below(path: &str, root: &str) -> (r: String)
    ensures
        r@ == display_below_spec(path@, root@),
{
    let pchars = chars_of(path);
    let pc = split_components(&pchars);
    let rc = split_components(&chars_of(root));
    let (is_prefix, _) = shared_prefix(&rc, &pc);
    if is_prefix {
        string_from(&strip_rest_exec(&pchars, rc.len()))
    } else {
        String::from_str(path)
    }
}

} // verus!

verus! {

/// Path text for a list of components (a root component is written without
/// a following extra separator).
pub open spec fn render_components(c: Seq<Seq<char>>) -> Seq<char> {
    if c.len() > 0 && c[0] == seq!['/'] {
        seq!['/'] + join_all(c.drop_first())
    } else {
        join_all(c)
    }
}

/// The path without its last component (`Path::parent`); none for the root
/// and the empty path.
pub open spec fn parent_spec(p: Seq<char>) -> Option<Seq<char>> {
    let c = components(p);
    if c.len() == 0 || c.last() == seq!['/'] {
        None
    } else {
        Some(render_components(c.drop_last()))
    }
}

/// The parent directory of a path.
pub fn path_parent(p: &str) -> (r: Option<String>)
    ensures
        match r {
            Some(s) => parent_spec(p@) == Some(s@),
            None => parent_spec(p@) is None,
        },
{
    let comps = split_components(&chars_of(p));
    let n = comps.len();
    if n == 0 {
        return None;
    }
    let ghost cv = views(comps@);
    assert(cv[n - 1] == comps@[n - 1]@);
    if is_single(&comps[n - 1], '/') {
        return None;
    }
    let rooted = is_single(&comps[0], '/');
    assert(cv[0] == comps@[0]@);
    let from: usize = if rooted { 1 } else { 0 };
    let mut rest: Vec<Vec<char>> = Vec::new();
    let mut i: usize = from;
    while i < n - 1
        invariant
            from <= i <= n - 1,
            n == comps@.len(),
            cv == views(comps@),
            views(rest@) == cv.subrange(from as int, i as int),
        decreases n - 1 - i,
    {
        let ghost before = views(rest@);
        rest.push(copy_chars(&comps[i]));
        assert(cv[i as int] == comps@[i as int]@);
        assert(views(rest@) =~= before.push(cv[i as int]));
        assert(cv.subrange(from as int, i + 1) =~= cv.subrange(from as int, i as int).push(cv[i as int]));
        i += 1;
    }
    let joined = join_components(&rest);
    let mut out: Vec<char> = Vec::new();
    if rooted {
        out.push('/');
    }
    append_chars(&mut out, &joined);
    proof {
        let d = cv.drop_last();
        if rooted {
            assert(d.drop_first() =~= cv.subrange(1, n - 1));
            assert(out@ =~= seq!['/'] + joined@);
        } else {
            assert(d =~= cv.subrange(0, n - 1));
            assert(out@ =~= joined@);
        }
    }
    Some(string_from(&out))
}

} // verus!

verus! {

/// The file name without its extension (`Path::file_stem`): the part before
/// the last `.`, or the whole name when it has no `.` past its first character.
pub open spec fn name_stem(name: Seq<char>) -> Seq<char> {
    let k = last_dot(name);
    if k <= 0 {
        name
    } else {
        name.subrange(0, k)
    }
}

/// The stem of a path's file name, if it has a file name.
pub open spec fn file_stem(p: Seq<char>) -> Option<Seq<char>> {
    match file_name(p) {
        Some(n) => Some(name_stem(n)),
        None => None,
    }
}

/// The stem of a file name.
pub fn name_stem_of(name: &[char]) -> (r: Vec<char>)
    ensures
        r@ == name_stem(name@),
{
    let n = name.len();
    let mut j: usize = n;
    assert(name@.subrange(0, n as int) =~= name@);
    while j > 0 && name[j - 1] != '.'
        invariant
            j <= n,
            n == name@.len(),
            last_dot(name@) == last_dot(name@.subrange(0, j as int)),
        decreases j,
    {
        assert(name@.subrange(0, j as int).drop_last() =~= name@.subrange(0, j as int - 1));
        j -= 1;
    }
    if j <= 1 {
        if j == 0 {
            assert(last_dot(name@.subrange(0, 0)) == -1);
        } else {
            assert(last_dot(name@.subrange(0, 1)) == 0);
        }
        return copy_chars(name);
    }
    assert(last_dot(name@.subrange(0, j as int)) == j - 1);
    let mut r: Vec<char> = Vec::new();
    let mut i: usize = 0;
    while i < j - 1
        invariant
            i <= j - 1,
            j <= n,
            n == name@.len(),
            r@ == name@.subrange(0, i as int),
        decreases j - 1 - i,
    {
        r.push(name[i]);
        i += 1;
    }
    r
}

/// The stem of a path's file name.
pub fn path_file_stem(p: &str) -> (r: Option<String>)
    ensures
        match r {
            Some(s) => file_stem(p@) == Some(s@),
            None => file_stem(p@) is None,
        },
{
    match path_file_name(&chars_of(p)) {
        Some(name) => Some(string_from(&name_stem_of(&name))),
        None => None,
    }
}

/// The file name of a path, as a string.
pub fn path_file_name_str(p: &str) -> (r: Option<String>)
    ensures
        match r {
            Some(s) => file_name(p@) == Some(s@),
            None => file_name(p@) is None,
        },
{
    match path_file_name(&chars_of(p)) {
        Some(name) => Some(string_from(&name)),
        None => None,
    }
}

/// The extension of a path, as a string.
pub fn path_extension_str(p: &str) -> (r: Option<String>)
    ensures
        match r {
            Some(s) => extension(p@) == Some(s@),
            None => extension(p@) is None,
        },
{
    match path_extension(&chars_of(p)) {
        Some(e) => Some(string_from(&e)),
        None => None,
    }
}

} // verus!

verus! {

/// Whether `s` has no `/`.
pub open spec fn no_slash(s: Seq<char>) -> bool {
    forall|i: int| 0 <= i < s.len() ==> s[i] != '/'
}

/// Whether `s` has no `.`.
pub open spec fn no_dot(s: Seq<char>) -> bool {
    forall|i: int| 0 <= i < s.len() ==> s[i] != '.'
}

proof fn lemma_scan_append(p: Seq<char>, w: Seq<char>)
    requires
        no_slash(w),
    ensures
        scan(p + w) == (scan(p).0, scan(p).1 + w),
    decreases w.len(),
{
    if w.len() == 0 {
        assert(p + w =~= p);
        assert(scan(p).1 + w =~= scan(p).1);
    } else {
        let w0 = w.drop_last();
        lemma_scan_append(p, w0);
        assert((p + w).drop_last() =~= p + w0);
        assert((p + w).last() == w.last());
        assert(scan(p).1 + w0 + seq![w.last()] =~= scan(p).1 + w);
    }
}

proof fn lemma_scan_pieces_no_slash(p: Seq<char>)
    ensures
        no_slash(scan(p).1),
        forall|k: int| 0 <= k < scan(p).0.len() ==> no_slash(#[trigger] scan(p).0[k]),
    decreases p.len(),
{
    if p.len() > 0 {
        lemma_scan_pieces_no_slash(p.drop_last());
    }
}

/// The file name of a path has no `/`.
pub proof fn lemma_file_name_no_slash(p: Seq<char>)
    ensures
        file_name(p) matches Some(n) ==> no_slash(n),
{
    lemma_scan_pieces_no_slash(p);
    let c = components(p);
    if c.len() > 0 && file_name(p) is Some {
        let b = body_components(p);
        if b.len() > 0 {
            assert(c.last() == b.last());
        } else {
            assert(c =~= head_components(p));
        }
    }
}

/// Joining a directory and a plain name (no `/`, not `.` or `..`) gives a
/// path whose file name is that name.
pub proof fn lemma_file_name_of_join(dir: Seq<char>, name: Seq<char>)
    requires
        name.len() > 0,
        no_slash(name),
        name != seq!['.'],
        name != seq!['.', '.'],
    ensures
        file_name(path_join(dir, name)) == Some(name),
{
    let x = path_join(dir, name);
    let pre = if dir.len() == 0 || dir.last() == '/' { dir } else { dir + seq!['/'] };
    assert(x =~= pre + name);
    lemma_scan_append(pre, name);
    if pre.len() == 0 {
        assert(scan(pre) == (Seq::<Seq<char>>::empty(), Seq::<char>::empty()));
        assert(pre + name =~= name);
        assert(Seq::<char>::empty() + name =~= name);
    } else {
        assert(pre.last() == '/');
        assert(pre.drop_last() + seq!['/'] =~= pre);
        assert(scan(pre).1 == Seq::<char>::empty());
        assert(Seq::<char>::empty() + name =~= name);
    }
    let b = body_components(x);
    assert(b == scan(pre).0.push(name));
    let c = components(x);
    assert(c =~= head_components(x) + b);
    assert(c.last() == b.last());
}

/// With no `.` after it, the last `.` of `a + w` is the last `.` of `a`.
pub proof fn lemma_last_dot_append(a: Seq<char>, w: Seq<char>)
    requires
        no_dot(w),
    ensures
        last_dot(a + w) == last_dot(a),
    decreases w.len(),
{
    if w.len() > 0 {
        lemma_last_dot_append(a, w.drop_last());
        assert((a + w).drop_last() =~= a + w.drop_last());
        assert((a + w).last() == w.last());
    } else {
        assert(a + w =~= a);
    }
}

/// An extension has no `.`.
pub proof fn lemma_extension_no_dot(name: Seq<char>)
    ensures
        name_extension(name) matches Some(e) ==> no_dot(e),
    decreases name.len(),
{
    let k = last_dot(name);
    if k > 0 {
        lemma_last_dot_range(name);
        lemma_no_dot_after_last(name);
        let e = name.subrange(k + 1, name.len() as int);
        assert forall|i: int| 0 <= i < e.len() implies e[i] != '.' by {
            assert(e[i] == name[k + 1 + i]);
        }
    }
}

proof fn lemma_no_dot_after_last(s: Seq<char>)
    ensures
        forall|i: int| last_dot(s) < i < s.len() ==> s[i] != '.',
    decreases s.len(),
{
    lemma_last_dot_range(s);
    if s.len() > 0 && s.last() != '.' {
        lemma_no_dot_after_last(s.drop_last());
        assert forall|i: int| last_dot(s) < i < s.len() implies s[i] != '.' by {
            if i < s.len() - 1 {
                assert(s[i] == s.drop_last()[i]);
            }
        }
    }
}

/// A stem, a `.` and an extension without `.`: the file stem is the stem again
/// (when the stem is not empty).
pub proof fn lemma_stem_of_dotted(stem: Seq<char>, ext: Seq<char>)
    requires
        stem.len() > 0,
        no_dot(ext),
    ensures
        name_stem(stem + seq!['.'] + ext) == stem,
        name_extension(stem + seq!['.'] + ext) == Some(ext),
{
    let a = stem + seq!['.'];
    lemma_last_dot_append(a, ext);
    assert(a.last() == '.');
    assert(last_dot(a) == stem.len());
    assert(a + ext =~= stem + seq!['.'] + ext);
    assert((stem + seq!['.'] + ext).subrange(0, stem.len() as int) =~= stem);
    assert((stem + seq!['.'] + ext).subrange(stem.len() + 1int, (stem + seq!['.'] + ext).len() as int) =~= ext);
}

} // verus!

verus! {

/// Lexical resolution: starting from the components `at`, each component of
/// `rel` in turn is applied: `.` stays put, `..` drops the last component
/// (never the root), and a name is appended.
pub open spec fn resolve(at: Seq<Seq<char>>, rel: Seq<Seq<char>>) -> Seq<Seq<char>>
    decreases rel.len(),
{
    if rel.len() == 0 {
        at
    } else {
        let c = rel[0];
        let next = if c == seq!['.'] {
            at
        } else if c == seq!['.', '.'] {
            if at.len() > 1 { at.drop_last() } else { at }
        } else {
            at.push(c)
        };
        resolve(next, rel.drop_first())
    }
}

/// An absolute path without `..` components (`.` components are never kept).
pub open spec fn absolute_normalised(p: Seq<char>) -> bool {
    &&& p.len() > 0
    &&& p[0] == '/'
    &&& forall|i: int| 0 <= i < components(p).len() ==> #[trigger] components(p)[i] != seq!['.', '.']
}

/// A piece that a joined path keeps as one component.
pub open spec fn joinable(c: Seq<char>) -> bool {
    keep_piece(c) && no_slash(c)
}

/// `/` followed by each part after the first.
pub open spec fn join_tail(parts: Seq<Seq<char>>) -> Seq<char>
    decreases parts.len(),
{
    if parts.len() <= 1 {
        Seq::empty()
    } else {
        join_tail(parts.drop_last()) + seq!['/'] + parts.last()
    }
}

proof fn lemma_join_head(parts: Seq<Seq<char>>)
    requires
        parts.len() >= 1,
    ensures
        join_all(parts) == parts[0] + join_tail(parts),
        join_tail(parts).len() > 0 ==> join_tail(parts)[0] == '/',
    decreases parts.len(),
{
    if parts.len() == 1 {
        assert(parts[0] + join_tail(parts) =~= parts[0]);
    } else {
        let d = parts.drop_last();
        lemma_join_head(d);
        assert(d[0] == parts[0]);
        assert(parts[0] + join_tail(parts) =~= parts[0] + join_tail(d) + seq!['/'] + parts.last());
        if join_tail(d).len() == 0 {
            assert((join_tail(d) + seq!['/'] + parts.last())[0] == '/');
        } else {
            assert((join_tail(d) + seq!['/'] + parts.last())[0] == join_tail(d)[0]);
        }
    }
}

proof fn lemma_scan_join(q: Seq<char>, parts: Seq<Seq<char>>)
    requires
        parts.len() >= 1,
        scan(q).1.len() == 0,
        forall|i: int| 0 <= i < parts.len() ==> joinable(#[trigger] parts[i]),
    ensures
        scan(q + join_all(parts)) == (scan(q).0 + parts.drop_last(), parts.last()),
    decreases parts.len(),
{
    if parts.len() == 1 {
        lemma_scan_append(q, parts[0]);
        assert(scan(q).1 + parts[0] =~= parts[0]);
        assert(scan(q).0 + parts.drop_last() =~= scan(q).0);
    } else {
        let d = parts.drop_last();
        assert forall|i: int| 0 <= i < d.len() implies joinable(#[trigger] d[i]) by {
            assert(d[i] == parts[i]);
        }
        lemma_scan_join(q, d);
        let x = q + join_all(d);
        let y = x + seq!['/'];
        assert(y.drop_last() =~= x);
        assert(y.last() == '/');
        assert(joinable(parts[parts.len() - 2]));
        assert(d.last() == parts[parts.len() - 2]);
        assert(scan(y).0 =~= scan(q).0 + d);
        assert(scan(y).1.len() == 0);
        assert(joinable(parts.last()));
        lemma_scan_append(y, parts.last());
        assert(q + join_all(parts) =~= y + parts.last());
        assert(scan(y).1 + parts.last() =~= parts.last());
        assert(parts.drop_last() == d);
    }
}

/// The components of parts joined with `/` are the parts again, when the
/// first does not make the path look rooted or current-dir.
proof fn lemma_components_of_join(parts: Seq<Seq<char>>)
    requires
        forall|i: int| 0 <= i < parts.len() ==> joinable(#[trigger] parts[i]),
    ensures
        components(join_all(parts)) == parts,
        components(seq!['.', '/'] + join_all(parts)) == seq![seq!['.']] + parts,
{
    let dot_slash = seq!['.', '/'];
    assert(seq!['.'].drop_last() =~= Seq::<char>::empty());
    assert(dot_slash.drop_last() =~= seq!['.']);
    assert(scan(Seq::<char>::empty()) == (Seq::<Seq<char>>::empty(), Seq::<char>::empty()));
    assert(Seq::<char>::empty().push('.') =~= seq!['.']);
    assert(scan(seq!['.']) == (Seq::<Seq<char>>::empty(), seq!['.']));
    assert(scan(dot_slash).0 =~= Seq::<Seq<char>>::empty());
    assert(scan(dot_slash).1.len() == 0);
    if parts.len() == 0 {
        assert(join_all(parts) =~= Seq::<char>::empty());
        assert(components(join_all(parts)) =~= parts);
        assert(dot_slash + join_all(parts) =~= dot_slash);
        assert(components(dot_slash) =~= seq![seq!['.']] + parts);
    } else {
        let p = join_all(parts);
        let e = Seq::<char>::empty();
        lemma_scan_join(e, parts);
        assert(e + p =~= p);
        assert(joinable(parts.last()));
        assert(body_components(p) =~= parts);
        lemma_join_head(parts);
        let h = parts[0];
        assert(joinable(h));
        assert(p[0] == h[0]);
        assert(h[0] != '/');
        if h[0] == '.' {
            if h.len() == 1 {
                assert(h =~= seq!['.']);
            } else {
                assert(p[1] == h[1]);
                assert(h[1] != '/');
            }
        }
        assert(head_components(p) =~= Seq::<Seq<char>>::empty());
        assert(components(p) =~= parts);
        lemma_scan_join(dot_slash, parts);
        let r = dot_slash + p;
        assert(r[0] == '.' && r[1] == '/');
        assert(body_components(r) =~= parts);
        assert(components(r) =~= seq![seq!['.']] + parts);
    }
}

proof fn lemma_scan_pieces_kept(p: Seq<char>)
    ensures
        forall|k: int| 0 <= k < scan(p).0.len() ==> keep_piece(#[trigger] scan(p).0[k]),
    decreases p.len(),
{
    if p.len() > 0 {
        let q = p.drop_last();
        lemma_scan_pieces_kept(q);
        let (d, c) = scan(q);
        if p.last() == '/' && keep_piece(c) {
            assert forall|k: int| 0 <= k < scan(p).0.len() implies keep_piece(#[trigger] scan(p).0[k]) by {
                assert(scan(p).0 == d.push(c));
                if k < d.len() {
                    assert(scan(p).0[k] == d[k]);
                }
            }
        }
    }
}

/// Every component of a rooted path after the root is a plain piece.
proof fn lemma_rooted_components(p: Seq<char>)
    requires
        p.len() > 0,
        p[0] == '/',
    ensures
        components(p).len() >= 1,
        components(p)[0] == seq!['/'],
        forall|i: int| 1 <= i < components(p).len() ==> joinable(#[trigger] components(p)[i]),
{
    lemma_scan_pieces_kept(p);
    lemma_scan_pieces_no_slash(p);
    let b = body_components(p);
    assert forall|i: int| 0 <= i < b.len() implies joinable(#[trigger] b[i]) by {
        if i < scan(p).0.len() {
            assert(b[i] == scan(p).0[i]);
        }
    }
    assert forall|i: int| 1 <= i < components(p).len() implies joinable(#[trigger] components(p)[i]) by {
        assert(components(p)[i] == b[i - 1]);
    }
}

proof fn lemma_resolve_names(at: Seq<Seq<char>>, names: Seq<Seq<char>>)
    requires
        forall|i: int| 0 <= i < names.len() ==> #[trigger] names[i] != seq!['.'] && names[i] != seq!['.', '.'],
    ensures
        resolve(at, names) == at + names,
    decreases names.len(),
{
    if names.len() == 0 {
        assert(at + names =~= at);
    } else {
        let rest = names.drop_first();
        assert forall|i: int| 0 <= i < rest.len() implies #[trigger] rest[i] != seq!['.'] && rest[i] != seq!['.', '.'] by {
            assert(rest[i] == names[i + 1]);
        }
        assert(names[0] != seq!['.'] && names[0] != seq!['.', '.']);
        lemma_resolve_names(at.push(names[0]), rest);
        assert(at.push(names[0]) + rest =~= at + names);
    }
}

proof fn lemma_resolve_ups(at: Seq<Seq<char>>, k: nat, rest: Seq<Seq<char>>)
    requires
        at.len() > k,
    ensures
        resolve(at, ups(k) + rest) == resolve(at.take(at.len() - k), rest),
    decreases k,
{
    if k == 0 {
        assert(ups(0) + rest =~= rest);
        assert(at.take(at.len() as int) =~= at);
    } else {
        let s = ups(k) + rest;
        assert(s[0] == seq!['.', '.']);
        assert(s.drop_first() =~= ups((k - 1) as nat) + rest);
        lemma_resolve_ups(at.drop_last(), (k - 1) as nat, rest);
        assert(at.drop_last().take(at.drop_last().len() - (k - 1)) =~= at.take(at.len() - k));
    }
}

proof fn lemma_common_len_props(a: Seq<Seq<char>>, b: Seq<Seq<char>>)
    ensures
        common_len(a, b) <= a.len(),
        common_len(a, b) <= b.len(),
        forall|i: int| 0 <= i < common_len(a, b) ==> #[trigger] a[i] == b[i],
        common_len(a, b) < a.len() && common_len(a, b) < b.len() ==> a[common_len(a, b) as int] != b[common_len(
            a,
            b,
        ) as int],
    decreases a.len(),
{
    if a.len() > 0 && b.len() > 0 && a[0] == b[0] {
        let (a1, b1) = (a.drop_first(), b.drop_first());
        lemma_common_len_props(a1, b1);
        assert forall|i: int| 0 <= i < common_len(a, b) implies #[trigger] a[i] == b[i] by {
            if i > 0 {
                assert(a[i] == a1[i - 1] && b[i] == b1[i - 1]);
            }
        }
        let c = common_len(a, b);
        if c < a.len() && c < b.len() {
            assert(a[c as int] == a1[c - 1] && b[c as int] == b1[c - 1]);
        }
    }
}

proof fn lemma_scan_concat(p: Seq<char>, q: Seq<char>)
    requires
        scan(p).1.len() == 0,
    ensures
        scan(p + q) == (scan(p).0 + scan(q).0, scan(q).1),
    decreases q.len(),
{
    if q.len() == 0 {
        assert(p + q =~= p);
        assert(scan(p).0 + scan(q).0 =~= scan(p).0);
        assert(scan(p).1 =~= scan(q).1);
    } else {
        let q0 = q.drop_last();
        lemma_scan_concat(p, q0);
        assert((p + q).drop_last() =~= p + q0);
        assert((p + q).last() == q.last());
        let (d, c) = scan(q0);
        if q.last() == '/' {
            if keep_piece(c) {
                assert((scan(p).0 + d).push(c) =~= scan(p).0 + d.push(c));
            }
        }
    }
}

/// The body components of a path: those of its first piece, then those of
/// the rest after the first `/`.
proof fn lemma_body_front(t: Seq<char>)
    requires
        t.len() > 0,
    ensures
        body_components(t) == flush(Seq::empty(), split_first(t).0) + body_components(split_first(t).1),
{
    lemma_split_first(t);
    let (pc, rest) = split_first(t);
    let e = Seq::<char>::empty();
    assert(scan(e) == (Seq::<Seq<char>>::empty(), e));
    lemma_scan_append(e, pc);
    assert(e + pc =~= pc);
    assert(e + pc =~= pc);
    assert(scan(pc) == (Seq::<Seq<char>>::empty(), e + pc));
    if slash_from(t, 0) < 0 {
        assert(pc == t);
        assert(rest =~= e);
        assert(body_components(rest) =~= Seq::<Seq<char>>::empty());
        assert(flush(Seq::empty(), pc) + body_components(rest) =~= flush(Seq::empty(), pc));
    } else {
        let q0 = pc + seq!['/'];
        assert(q0.drop_last() =~= pc);
        assert(q0.last() == '/');
        assert(scan(q0) == (flush(Seq::empty(), pc), e));
        lemma_scan_concat(q0, rest);
        assert(t == q0 + rest);
        let (d, c) = scan(rest);
        let f = flush(Seq::<Seq<char>>::empty(), pc);
        if keep_piece(c) {
            assert((f + d).push(c) =~= f + d.push(c));
        }
    }
}

proof fn lemma_body_skip(t: Seq<char>, k: nat)
    requires
        k <= body_components(t).len(),
    ensures
        body_components(skip_pieces(t, k)) == body_components(t).skip(k as int),
    decreases t.len(),
{
    if k == 0 {
        assert(body_components(t).skip(0) =~= body_components(t));
    } else if t.len() == 0 {
    } else {
        lemma_body_front(t);
        let (pc, rest) = split_first(t);
        lemma_split_first(t);
        if keep_piece(pc) {
            assert(flush(Seq::<Seq<char>>::empty(), pc) =~= seq![pc]);
            lemma_body_skip(rest, (k - 1) as nat);
            assert(body_components(t).skip(k as int) =~= body_components(rest).skip(k - 1));
        } else {
            assert(flush(Seq::<Seq<char>>::empty(), pc) + body_components(rest) =~= body_components(rest));
            lemma_body_skip(rest, k);
        }
    }
}

proof fn lemma_body_trim_front(t: Seq<char>)
    ensures
        body_components(trim_front(t)) == body_components(t),
    decreases t.len(),
{
    if t.len() > 0 {
        lemma_body_front(t);
        let (pc, rest) = split_first(t);
        lemma_split_first(t);
        if !keep_piece(pc) {
            assert(flush(Seq::<Seq<char>>::empty(), pc) + body_components(rest) =~= body_components(rest));
            lemma_body_trim_front(rest);
        }
    }
}

proof fn lemma_body_trim_back(t: Seq<char>)
    ensures
        body_components(trim_back(t, 0)) == body_components(t),
    decreases t.len(),
{
    if t.len() > 0 {
        let u = t.drop_last();
        if t.last() == '/' {
            lemma_body_trim_back(u);
        } else if t.last() == '.' && t.len() == 1 {
            let e = Seq::<char>::empty();
            assert(u =~= e);
            assert(scan(e) == (Seq::<Seq<char>>::empty(), e));
            assert(e.push('.') =~= seq!['.']);
            assert(t.subrange(0, 0) =~= e);
            assert(body_components(e) =~= Seq::<Seq<char>>::empty());
            assert(body_components(t) =~= Seq::<Seq<char>>::empty());
        } else if t.last() == '.' && t.len() >= 2 && t[t.len() - 2] == '/' {
            let w = t.subrange(0, t.len() - 2);
            assert(u.drop_last() =~= w);
            assert(u.last() == '/');
            let (d, c) = scan(w);
            assert(scan(u) == (flush(d, c), Seq::<char>::empty()));
            assert(Seq::<char>::empty().push('.') =~= seq!['.']);
            lemma_body_trim_back(w);
        }
    }
}

/// The components of `./` followed by what is left of `target` after `n` of
/// its components are the current-dir marker and the rest of its components.
proof fn lemma_components_of_strip(target: Seq<char>, n: int)
    requires
        target.len() > 0,
        target[0] == '/',
        1 <= n <= components(target).len(),
    ensures
        components(seq!['.', '/'] + strip_rest(target, n)) == seq![seq!['.']] + components(target).skip(n),
{
    let t1 = target.subrange(1, target.len() as int);
    assert(head_components(target) =~= seq![seq!['/']]);
    let k = (n - 1) as nat;
    lemma_body_front(target);
    lemma_slash_from(target, 0);
    assert(slash_from(target, 0) == 0);
    assert(split_first(target).0 =~= Seq::<char>::empty());
    assert(split_first(target).1 =~= t1);
    assert(flush(Seq::<Seq<char>>::empty(), Seq::<char>::empty()) =~= Seq::<Seq<char>>::empty());
    assert(body_components(target) =~= body_components(t1));
    assert(components(target) =~= seq![seq!['/']] + body_components(t1));
    assert(components(target).skip(n) =~= body_components(t1).skip(k as int));
    lemma_body_skip(t1, k);
    let sk = skip_pieces(t1, k);
    lemma_body_trim_front(sk);
    lemma_body_trim_back(trim_front(sk));
    let rest = strip_rest(target, n);
    assert(rest == trim_back(trim_front(sk), 0));
    let r = seq!['.', '/'] + rest;
    assert(r[0] == '.' && r[1] == '/');
    assert(head_components(r) =~= seq![seq!['.']]);
    lemma_body_front(r);
    lemma_slash_from(r, 0);
    assert(r[0] != '/');
    assert(slash_from(r, 0) == 1);
    assert(split_first(r).0 =~= seq!['.']);
    assert(split_first(r).1 =~= rest);
    assert(flush(Seq::<Seq<char>>::empty(), seq!['.']) =~= Seq::<Seq<char>>::empty());
    assert(body_components(r) =~= body_components(rest));
}

/// The relative path leads from `base` to `target`: resolving its components
/// from `base`'s gives `target`'s. It starts with `./` exactly when `target`
/// lies below `base` (or is `base`). Both are absolute paths without `..`.
pub proof fn law_relative_path_leads_to_target(base: Seq<char>, target: Seq<char>)
    requires
        absolute_normalised(base),
        absolute_normalised(target),
    ensures
        resolve(components(base), components(relative_path_spec(base, target))) == components(target),
        ({
            let r = relative_path_spec(base, target);
            (r.len() >= 2 && r[0] == '.' && r[1] == '/') <==> components(base).is_prefix_of(components(target))
        }),
        relative_path_spec(base, target).len() >= 2,
        relative_path_spec(base, target)[0] == '.',
{
    let bc = components(base);
    let tc = components(target);
    lemma_rooted_components(base);
    lemma_rooted_components(target);
    let r = relative_path_spec(base, target);
    if bc.is_prefix_of(tc) {
        let rest = tc.skip(bc.len() as int);
        assert forall|i: int| 0 <= i < rest.len() implies joinable(#[trigger] rest[i]) by {
            assert(rest[i] == tc[i + bc.len()]);
        }
        lemma_components_of_strip(target, bc.len() as int);
        let rc = seq![seq!['.']] + rest;
        assert(rc[0] == seq!['.']);
        assert(rc.drop_first() =~= rest);
        assert forall|i: int| 0 <= i < rest.len() implies #[trigger] rest[i] != seq!['.'] && rest[i] != seq!['.', '.'] by {
            assert(rest[i] == tc[i + bc.len()]);
            assert(joinable(rest[i]));
        }
        lemma_resolve_names(bc, rest);
        assert(bc + rest =~= tc);
    } else {
        lemma_common_len_props(bc, tc);
        let c = common_len(bc, tc);
        assert(bc[0] == tc[0]);
        if c == 0 {
            assert(bc[0] != tc[0]);
        }
        assert(c >= 1);
        if c == bc.len() {
            assert(bc.is_prefix_of(tc));
        }
        let k = (bc.len() - c) as nat;
        let rest = tc.skip(c as int);
        let parts = ups(k) + rest;
        assert forall|i: int| 0 <= i < parts.len() implies joinable(#[trigger] parts[i]) by {
            if i < k {
                assert(parts[i] == seq!['.', '.']);
                assert(seq!['.', '.'] != seq!['.']) by {
                    assert(seq!['.', '.'].len() != seq!['.'].len());
                }
            } else {
                assert(parts[i] == tc[i - k + c]);
            }
        }
        lemma_components_of_join(parts);
        assert(r == join_all(parts));
        lemma_resolve_ups(bc, k, rest);
        assert forall|i: int| 0 <= i < rest.len() implies #[trigger] rest[i] != seq!['.'] && rest[i] != seq!['.', '.'] by {
            assert(rest[i] == tc[i + c]);
            assert(joinable(rest[i]));
        }
        lemma_resolve_names(bc.take(c as int), rest);
        assert(bc.take(c as int) =~= tc.take(c as int));
        assert(tc.take(c as int) + rest =~= tc);
        lemma_join_head(parts);
        assert(parts[0] == seq!['.', '.']);
        assert(r[1] == parts[0][1]);
        assert(r[0] == parts[0][0]);
    }
}

proof fn lemma_resolve_concat(at: Seq<Seq<char>>, x: Seq<Seq<char>>, y: Seq<Seq<char>>)
    ensures
        resolve(at, x + y) == resolve(resolve(at, x), y),
    decreases x.len(),
{
    if x.len() == 0 {
        assert(x + y =~= y);
    } else {
        assert((x + y)[0] == x[0]);
        assert((x + y).drop_first() =~= x.drop_first() + y);
        let c = x[0];
        let next = if c == seq!['.'] {
            at
        } else if c == seq!['.', '.'] {
            if at.len() > 1 { at.drop_last() } else { at }
        } else {
            at.push(c)
        };
        lemma_resolve_concat(next, x.drop_first(), y);
    }
}

/// `base` joined with `r` has `base`'s components followed by `r`'s named
/// (and `..`) components.
proof fn lemma_components_of_path_join(base: Seq<char>, r: Seq<char>)
    requires
        base.len() > 0,
        base[0] == '/',
    ensures
        components(path_join(base, r)) == components(base) + body_components(r),
{
    let j = path_join(base, r);
    let p = if base.last() == '/' { base } else { base + seq!['/'] };
    assert(j == p + r);
    assert(p.len() > 0 && p[0] == '/');
    assert(p.last() == '/');
    assert(p.drop_last() =~= (if base.last() == '/' { base.drop_last() } else { base }));
    let (d, c) = scan(p.drop_last());
    assert(scan(p) == (flush(d, c), Seq::<char>::empty()));
    if base.last() == '/' {
        assert(scan(base).1.len() == 0);
        assert(body_components(base) == scan(base).0);
    } else {
        assert(body_components(base) == flush(d, c));
    }
    assert(scan(p).0 == body_components(base));
    lemma_scan_concat(p, r);
    let (d2, c2) = scan(r);
    if keep_piece(c2) {
        assert((scan(p).0 + d2).push(c2) =~= scan(p).0 + d2.push(c2));
    }
    assert(j[0] == '/');
    assert(head_components(j) == head_components(base));
    assert(components(path_join(base, r)) =~= components(base) + body_components(r));
}

/// Joining `base` and the relative path to `target` and normalising the
/// result lexically (dropping `.`, letting each `..` remove the component
/// before it) gives `target`'s components, for absolute paths without `..`.
pub proof fn law_joined_relative_path_normalises_to_target(base: Seq<char>, target: Seq<char>)
    requires
        absolute_normalised(base),
        absolute_normalised(target),
    ensures
        resolve(Seq::empty(), components(path_join(base, relative_path_spec(base, target)))) == components(target),
{
    let bc = components(base);
    let r = relative_path_spec(base, target);
    law_relative_path_leads_to_target(base, target);
    lemma_rooted_components(base);
    lemma_components_of_path_join(base, r);
    let br = body_components(r);
    // `r` starts with `.`, so its only possible head component is `.`
    assert(r[0] != '/');
    if head_components(r).len() == 0 {
        assert(components(r) =~= br);
    } else {
        assert(head_components(r) =~= seq![seq!['.']]);
        let cr = components(r);
        assert(cr[0] == seq!['.']);
        assert(cr.drop_first() =~= br);
        assert(resolve(bc, cr) == resolve(bc, br));
    }
    lemma_resolve_concat(Seq::empty(), bc, br);
    let names = bc.drop_first();
    assert(bc =~= seq![seq!['/']] + names);
    assert forall|i: int| 0 <= i < names.len() implies #[trigger] names[i] != seq!['.'] && names[i] != seq!['.', '.'] by {
        assert(names[i] == bc[i + 1]);
        assert(joinable(bc[i + 1]));
    }
    assert(seq!['/'] != seq!['.']) by {
        assert(seq!['/'][0] != seq!['.'][0]);
    }
    assert(seq!['/'] != seq!['.', '.']) by {
        assert(seq!['/'].len() != seq!['.', '.'].len());
    }
    lemma_resolve_concat(Seq::empty(), seq![seq!['/']], names);
    assert(Seq::<Seq<char>>::empty().push(seq!['/']) =~= seq![seq!['/']]);
    assert(seq![seq!['/']].drop_first() =~= Seq::<Seq<char>>::empty());
    let one = seq![seq!['/']];
    assert(one[0] == seq!['/']);
    assert(resolve(Seq::empty(), one) == resolve(one, Seq::empty()));
    assert(resolve(Seq::empty(), one) == one);
    lemma_resolve_names(seq![seq!['/']], names);
    assert(resolve(Seq::empty(), bc) == bc);
}

} // verus!

verus! {

// What `Path::strip_prefix` leaves of a path, as `Path::display` shows it: the
// remaining text of the path itself (not its components rejoined), with the
// separators and `.` pieces at its two ends removed.

/// Index of the first `/` in `t` at or after `i`, or -1.
pub open spec fn slash_from(t: Seq<char>, i: int) -> int
    decreases t.len() - i,
{
    if i < 0 || i >= t.len() {
        -1
    } else if t[i] == '/' {
        i
    } else {
        slash_from(t, i + 1)
    }
}

pub proof fn lemma_slash_from(t: Seq<char>, i: int)
    requires
        0 <= i,
    ensures
        slash_from(t, i) == -1 || (i <= slash_from(t, i) < t.len() && t[slash_from(t, i)] == '/'),
        forall|k: int| i <= k < t.len() && (slash_from(t, i) == -1 || k < slash_from(t, i)) ==> t[k] != '/',
    decreases t.len() - i,
{
    if i < t.len() && t[i] != '/' {
        lemma_slash_from(t, i + 1);
    }
}

/// The first piece of `t` (up to its first `/`) and what follows that `/`.
pub open spec fn split_first(t: Seq<char>) -> (Seq<char>, Seq<char>) {
    let j = slash_from(t, 0);
    if j < 0 {
        (t, Seq::empty())
    } else {
        (t.subrange(0, j), t.subrange(j + 1, t.len() as int))
    }
}

pub proof fn lemma_split_first(t: Seq<char>)
    requires
        t.len() > 0,
    ensures
        split_first(t).1.len() < t.len(),
        no_slash(split_first(t).0),
        slash_from(t, 0) < 0 ==> split_first(t).0 == t,
        slash_from(t, 0) >= 0 ==> t == split_first(t).0 + seq!['/'] + split_first(t).1,
{
    lemma_slash_from(t, 0);
    let j = slash_from(t, 0);
    if j >= 0 {
        assert(t =~= t.subrange(0, j) + seq!['/'] + t.subrange(j + 1, t.len() as int));
    }
}

/// `t` after `k` kept pieces have been read from its front, each with the
/// separator after it (empty and `.` pieces on the way are read too).
pub open spec fn skip_pieces(t: Seq<char>, k: nat) -> Seq<char>
    decreases t.len(),
{
    if k == 0 || t.len() == 0 {
        t
    } else {
        proof {
            lemma_split_first(t);
        }
        let (p, rest) = split_first(t);
        if keep_piece(p) {
            skip_pieces(rest, (k - 1) as nat)
        } else {
            skip_pieces(rest, k)
        }
    }
}

/// `t` without its leading empty and `.` pieces.
pub open spec fn trim_front(t: Seq<char>) -> Seq<char>
    decreases t.len(),
{
    if t.len() == 0 {
        t
    } else {
        proof {
            lemma_split_first(t);
        }
        let (p, rest) = split_first(t);
        if keep_piece(p) {
            t
        } else {
            trim_front(rest)
        }
    }
}

/// `t` without its trailing empty and `.` pieces, never cutting into its
/// first `floor` characters.
pub open spec fn trim_back(t: Seq<char>, floor: int) -> Seq<char>
    decreases t.len(),
{
    if t.len() <= floor || t.len() == 0 {
        t
    } else if t.last() == '/' {
        trim_back(t.drop_last(), floor)
    } else if t.last() == '.' && t.len() - 1 == floor {
        t.subrange(0, floor)
    } else if t.last() == '.' && t.len() >= 2 && t[t.len() - 2] == '/' {
        trim_back(t.subrange(0, t.len() - 2), floor)
    } else {
        t
    }
}

/// What is left of `t` once its first `n` components are taken off (as
/// `Path::strip_prefix` gives it): with nothing taken off, `t` without its
/// trailing empty and `.` pieces; otherwise the text after the taken
/// components without empty and `.` pieces at either end.
pub open spec fn strip_rest(t: Seq<char>, n: int) -> Seq<char> {
    let h = head_components(t).len() as int;
    if n <= 0 {
        trim_back(t, h)
    } else {
        trim_back(trim_front(skip_pieces(t.subrange(h, t.len() as int), (n - h) as nat)), 0)
    }
}

fn copy_range(t: &[char], a: usize, b: usize) -> (r: Vec<char>)
    requires
        a <= b <= t@.len(),
    ensures
        r@ == t@.subrange(a as int, b as int),
{
    let mut r: Vec<char> = Vec::new();
    let mut i: usize = a;
    while i < b
        invariant
            a <= i <= b <= t@.len(),
            r@ == t@.subrange(a as int, i as int),
        decreases b - i,
    {
        r.push(t[i]);
        i += 1;
    }
    r
}

fn is_kept_piece(p: &[char]) -> (r: bool)
    ensures
        r == keep_piece(p@),
{
    if p.len() == 0 {
        false
    } else if p.len() == 1 && p[0] == '.' {
        assert(p@ =~= seq!['.']);
        false
    } else {
        assert(p@.len() != 1 || p@[0] != seq!['.'][0]);
        true
    }
}

fn split_first_exec(t: &[char]) -> (r: (Vec<char>, Vec<char>))
    ensures
        r.0@ == split_first(t@).0,
        r.1@ == split_first(t@).1,
{
    let mut i: usize = 0;
    while i < t.len() && t[i] != '/'
        invariant
            i <= t@.len(),
            slash_from(t@, 0) == slash_from(t@, i as int),
        decreases t@.len() - i,
    {
        i += 1;
    }
    if i < t.len() {
        (copy_range(t, 0, i), copy_range(t, i + 1, t.len()))
    } else {
        assert(t@.subrange(0, t@.len() as int) =~= t@);
        (copy_range(t, 0, t.len()), Vec::new())
    }
}

fn skip_pieces_exec(t: Vec<char>, k: usize) -> (r: Vec<char>)
    ensures
        r@ == skip_pieces(t@, k as nat),
    decreases t@.len(),
{
    if k == 0 || t.len() == 0 {
        return t;
    }
    proof {
        lemma_split_first(t@);
    }
    let (p, rest) = split_first_exec(&t);
    if is_kept_piece(&p) {
        skip_pieces_exec(rest, k - 1)
    } else {
        skip_pieces_exec(rest, k)
    }
}

fn trim_front_exec(t: Vec<char>) -> (r: Vec<char>)
    ensures
        r@ == trim_front(t@),
    decreases t@.len(),
{
    if t.len() == 0 {
        return t;
    }
    proof {
        lemma_split_first(t@);
    }
    let (p, rest) = split_first_exec(&t);
    if is_kept_piece(&p) {
        t
    } else {
        trim_front_exec(rest)
    }
}

fn trim_back_exec(t: &[char], floor: usize) -> (r: Vec<char>)
    ensures
        r@ == trim_back(t@, floor as int),
{
    let mut end: usize = t.len();
    assert(t@.subrange(0, end as int) =~= t@);
    loop
        invariant
            end <= t@.len(),
            trim_back(t@, floor as int) == trim_back(t@.subrange(0, end as int), floor as int),
        ensures
            end <= t@.len(),
            trim_back(t@, floor as int) == t@.subrange(0, end as int),
        decreases end,
    {
        let s = Ghost(t@.subrange(0, end as int));
        if end <= floor || end == 0 {
            break;
        }
        assert(s@.last() == t@[end - 1]);
        if end >= 2 {
            assert(s@[end - 2] == t@[end - 2]);
        }
        if t[end - 1] == '/' {
            assert(s@.drop_last() =~= t@.subrange(0, end - 1));
            end = end - 1;
        } else if t[end - 1] == '.' && end - 1 == floor {
            assert(s@.subrange(0, floor as int) =~= t@.subrange(0, floor as int));
            assert(trim_back(t@.subrange(0, floor as int), floor as int) == t@.subrange(0, floor as int));
            end = floor;
        } else if t[end - 1] == '.' && end >= 2 && t[end - 2] == '/' {
            assert(s@.subrange(0, end - 2) =~= t@.subrange(0, end - 2));
            end = end - 2;
        } else {
            break;
        }
    }
    copy_range(t, 0, end)
}

fn head_len(t: &[char]) -> (r: usize)
    ensures
        r == head_components(t@).len(),
        r <= t@.len(),
{
    if t.len() > 0 && t[0] == '/' {
        1
    } else if (t.len() == 1 && t[0] == '.') || (t.len() > 1 && t[0] == '.' && t[1] == '/') {
        1
    } else {
        0
    }
}

/// What is left of `t` once `n` leading components are taken off (see `strip_rest`).
fn strip_rest_exec(t: &[char], n: usize) -> (r: Vec<char>)
    ensures
        r@ == strip_rest(t@, n as int),
{
    let h = head_len(t);
    if n == 0 {
        trim_back_exec(t, h)
    } else {
        let k: usize = if n >= h { n - h } else { 0 };
        let rest = copy_range(t, h, t.len());
        let r = trim_front_exec(skip_pieces_exec(rest, k));
        trim_back_exec(&r, 0)
    }
}

} // verus!
