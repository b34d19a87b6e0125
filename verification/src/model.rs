//! Model loading: the directory of a model file, texture file paths, and the cache that
//! keeps a model from loading the same texture file twice.

use vstd::prelude::*;
use crate::mesh::Texture;
use crate::power_up::str_equals;

verus! {

/// Index of the last `/` in `s`, or -1 when there is none.
pub open spec fn last_slash(s: Seq<char>) -> int
    decreases s.len(),
{
    if s.len() == 0 {
        -1
    } else if s.last() == '/' {
        s.len() - 1
    } else {
        last_slash(s.drop_last())
    }
}

proof fn lemma_last_slash(s: Seq<char>)
    ensures
        -1 <= last_slash(s) < s.len(),
        last_slash(s) >= 0 ==> s[last_slash(s)] == '/',
        forall|j: int| last_slash(s) < j < s.len() ==> s[j] != '/',
        s.contains('/') <==> last_slash(s) >= 0,
    decreases s.len(),
{
    if s.len() > 0 {
        lemma_last_slash(s.drop_last());
        assert forall|j: int| last_slash(s) < j < s.len() implies s[j] != '/' by {
            if j < s.len() - 1 {
                assert(s.drop_last()[j] == s[j]);
            }
        }
        if s.last() != '/' {
            if s.contains('/') {
                let k = choose|k: int| 0 <= k < s.len() && s[k] == '/';
                assert(s.drop_last()[k] == '/');
            }
        } else {
            assert(s[s.len() - 1] == '/');
        }
    }
}

/// A model path is its directory, a `/`, and a file name that holds no `/`.
pub proof fn lemma_directory_split(path: Seq<char>)
    requires
        path.contains('/'),
    ensures
        0 <= last_slash(path) < path.len(),
        path == path.take(last_slash(path)) + seq!['/'] + path.skip(last_slash(path) + 1),
        forall|j: int|
            0 <= j < path.skip(last_slash(path) + 1).len() ==> #[trigger] path.skip(last_slash(path) + 1)[j]
                != '/',
{
    lemma_last_slash(path);
    let k = last_slash(path);
    assert(path =~= path.take(k) + seq!['/'] + path.skip(k + 1));
    assert forall|j: int| 0 <= j < path.skip(k + 1).len() implies #[trigger] path.skip(k + 1)[j] != '/' by {
        assert(path.skip(k + 1)[j] == path[k + 1 + j]);
    }
}

/// The directory part of a model path: everything before its last `/`.
pub fn directory_of(path: &str) -> (r: String)
    requires
        path@.contains('/'),
    ensures
        r@ == path@.take(last_slash(path@)),
{
    proof {
        lemma_last_slash(path@);
    }
    let n = path.unicode_len();
    let mut i = n;
    while i > 0 && path.get_char(i - 1) != '/'
        invariant
            0 <= i <= n,
            n == path@.len(),
            forall|j: int| i <= j < n ==> path@[j] != '/',
            -1 <= last_slash(path@) < n,
            last_slash(path@) >= 0 ==> path@[last_slash(path@)] == '/',
            forall|j: int| last_slash(path@) < j < n ==> path@[j] != '/',
            last_slash(path@) >= 0,
        decreases i,
    {
        i = i - 1;
    }
    assert(i >= 1) by {
        if i == 0 {
            assert(path@[last_slash(path@)] != '/');
        }
    }
    assert(i - 1 == last_slash(path@));
    String::from_str(path.substring_char(0, i - 1))
}

/// The path of a texture file named relative to the model's directory.
pub fn texture_file_path(directory: &String, filename: &str) -> (r: String)
    ensures
        r@ == directory@ + seq!['/'] + filename@,
{
    let mut r = directory.clone();
    r.append("/");
    r.append(filename);
    proof {
        reveal_strlit("/");
    }
    r
}

/// The plain value of a texture.
pub struct TextureView {
    pub id: u32,
    pub type_s: Seq<char>,
    pub path: Seq<char>,
}

/// The plain value of a texture.
pub open spec fn texture_view(t: Texture) -> TextureView {
    TextureView { id: t.id, type_s: t.type_s@, path: t.path@ }
}

/// The plain values of textures.
pub open spec fn texture_views(ts: Seq<Texture>) -> Seq<TextureView> {
    ts.map_values(|t: Texture| texture_view(t))
}

/// The files of textures.
pub open spec fn paths_of(ts: Seq<TextureView>) -> Seq<Seq<char>> {
    ts.map_values(|t: TextureView| t.path)
}

/// The file names that still need loading, in the order they are met: each file that is
/// neither in `seen` nor met earlier.
pub open spec fn files_to_load(seen: Seq<Seq<char>>, files: Seq<Seq<char>>) -> Seq<Seq<char>>
    decreases files.len(),
{
    if files.len() == 0 {
        Seq::empty()
    } else {
        let prev = files_to_load(seen, files.drop_last());
        if (seen + prev).contains(files.last()) {
            prev
        } else {
            prev.push(files.last())
        }
    }
}

/// The position of the first texture loaded from `path`.
pub open spec fn find_path(ts: Seq<TextureView>, path: Seq<char>) -> Option<int>
    decreases ts.len(),
{
    if ts.len() == 0 {
        None
    } else {
        match find_path(ts.drop_last(), path) {
            Some(k) => Some(k),
            None => if ts.last().path == path {
                Some(ts.len() - 1)
            } else {
                None
            },
        }
    }
}

/// The textures of a material: for each file, the texture already loaded from it, or a new
/// texture of role `type_s` whose name is the next of `ids`; new textures join the loaded
/// ones. Gives the loaded textures afterwards and the material's textures.
pub open spec fn material_textures(
    loaded: Seq<TextureView>,
    files: Seq<Seq<char>>,
    type_s: Seq<char>,
    ids: Seq<u32>,
) -> (Seq<TextureView>, Seq<TextureView>)
    decreases files.len(),
{
    if files.len() == 0 {
        (loaded, Seq::empty())
    } else {
        let (l, out) = material_textures(loaded, files.drop_last(), type_s, ids);
        let f = files.last();
        match find_path(l, f) {
            Some(k) => (l, out.push(l[k])),
            None => {
                let t = TextureView { id: ids[l.len() - loaded.len()], type_s, path: f };
                (l.push(t), out.push(t))
            },
        }
    }
}

proof fn lemma_find_path(ts: Seq<TextureView>, path: Seq<char>)
    ensures
        find_path(ts, path) is None <==> !paths_of(ts).contains(path),
        find_path(ts, path) matches Some(k) ==> 0 <= k < ts.len() && ts[k].path == path,
    decreases ts.len(),
{
    if ts.len() > 0 {
        let d = ts.drop_last();
        lemma_find_path(d, path);
        assert(paths_of(d) =~= paths_of(ts).drop_last());
        assert(paths_of(ts)[ts.len() - 1] == ts.last().path);
        if paths_of(ts).contains(path) {
            let k = choose|k: int| 0 <= k < paths_of(ts).len() && paths_of(ts)[k] == path;
            if k < ts.len() - 1 {
                assert(paths_of(d)[k] == path);
            }
        }
        if paths_of(d).contains(path) {
            let k = choose|k: int| 0 <= k < paths_of(d).len() && paths_of(d)[k] == path;
            assert(paths_of(ts)[k] == path);
        }
    }
}

proof fn lemma_material_shape(loaded: Seq<TextureView>, files: Seq<Seq<char>>, type_s: Seq<char>, ids: Seq<u32>)
    ensures
        ({
            let (l, out) = material_textures(loaded, files, type_s, ids);
            &&& l.len() == loaded.len() + files_to_load(paths_of(loaded), files).len()
            &&& l.take(loaded.len() as int) == loaded
            &&& paths_of(l) == paths_of(loaded) + files_to_load(paths_of(loaded), files)
            &&& out.len() == files.len()
            &&& forall|i: int| 0 <= i < files.len() ==> #[trigger] out[i].path == files[i]
        }),
    decreases files.len(),
{
    if files.len() > 0 {
        let p = files.drop_last();
        lemma_material_shape(loaded, p, type_s, ids);
        let (l, out) = material_textures(loaded, p, type_s, ids);
        let f = files.last();
        lemma_find_path(l, f);
        let prev = files_to_load(paths_of(loaded), p);
        let (l2, out2) = material_textures(loaded, files, type_s, ids);
        match find_path(l, f) {
            Some(k) => {
                assert(out2 == out.push(l[k]));
            },
            None => {
                let t = TextureView { id: ids[l.len() - loaded.len()], type_s, path: f };
                assert(l2 == l.push(t));
                assert(paths_of(l.push(t)) =~= paths_of(l).push(f));
                assert(l.push(t).take(loaded.len() as int) =~= l.take(loaded.len() as int));
                assert(out2 == out.push(t));
            },
        }
        assert forall|i: int| 0 <= i < files.len() implies #[trigger] out2[i].path == files[i] by {
            if i < files.len() - 1 {
                assert(files[i] == p[i]);
            }
        }
    }
}

/// Files are distinct.
pub open spec fn all_distinct(s: Seq<Seq<char>>) -> bool {
    forall|i: int, j: int| 0 <= i < s.len() && 0 <= j < s.len() && i != j ==> s[i] != s[j]
}

proof fn lemma_to_load_fresh(seen: Seq<Seq<char>>, files: Seq<Seq<char>>)
    requires
        all_distinct(seen),
    ensures
        all_distinct(seen + files_to_load(seen, files)),
    decreases files.len(),
{
    if files.len() > 0 {
        lemma_to_load_fresh(seen, files.drop_last());
        let prev = files_to_load(seen, files.drop_last());
        let f = files.last();
        if !(seen + prev).contains(f) {
            let s2 = seen + prev.push(f);
            assert(s2 =~= (seen + prev).push(f));
            assert forall|i: int, j: int| 0 <= i < s2.len() && 0 <= j < s2.len() && i != j implies s2[i] != s2[j] by {
                if i < s2.len() - 1 && j < s2.len() - 1 {
                    assert(s2[i] == (seen + prev)[i]);
                    assert(s2[j] == (seen + prev)[j]);
                } else if i == s2.len() - 1 {
                    assert(s2[j] == (seen + prev)[j]);
                } else {
                    assert(s2[i] == (seen + prev)[i]);
                }
            }
        }
    }
}

proof fn lemma_contains_take_step(s: Seq<Seq<char>>, j: int, x: Seq<char>)
    requires
        0 <= j < s.len(),
    ensures
        s.take(j + 1).contains(x) <==> (s.take(j).contains(x) || s[j] == x),
{
    let t1 = s.take(j + 1);
    let t0 = s.take(j);
    if t1.contains(x) {
        let k = choose|k: int| 0 <= k < t1.len() && t1[k] == x;
        if k < j {
            assert(t0[k] == x);
        }
    }
    if t0.contains(x) {
        let k = choose|k: int| 0 <= k < t0.len() && t0[k] == x;
        assert(t1[k] == x);
    }
    if s[j] == x {
        assert(t1[j] == x);
    }
}

proof fn lemma_contains_take(s: Seq<Seq<char>>, j: int, x: Seq<char>)
    requires
        0 <= j <= s.len(),
        s.take(j).contains(x),
    ensures
        s.contains(x),
{
    let t = s.take(j);
    let k = choose|k: int| 0 <= k < t.len() && t[k] == x;
    assert(s[k] == x);
}

proof fn lemma_contains_concat(a: Seq<Seq<char>>, b: Seq<Seq<char>>, x: Seq<char>)
    ensures
        (a + b).contains(x) <==> (a.contains(x) || b.contains(x)),
{
    if (a + b).contains(x) {
        let k = choose|k: int| 0 <= k < (a + b).len() && (a + b)[k] == x;
        if k < a.len() {
            assert(a[k] == x);
        } else {
            assert(b[k - a.len()] == x);
        }
    }
    if a.contains(x) {
        let k = choose|k: int| 0 <= k < a.len() && a[k] == x;
        assert((a + b)[k] == x);
    }
    if b.contains(x) {
        let k = choose|k: int| 0 <= k < b.len() && b[k] == x;
        assert((a + b)[a.len() + k] == x);
    }
}

/// A copy of a texture with the same id, role and path.
pub fn copy_texture(t: &Texture) -> (r: Texture)
    ensures
        texture_view(r) == texture_view(*t),
{
    Texture { id: t.id, type_s: t.type_s.clone(), path: t.path.clone() }
}

fn position_of_path(ts: &Vec<Texture>, path: &String) -> (r: Option<usize>)
    ensures
        r == (match find_path(texture_views(ts@), path@) {
            Some(k) => Some(k as usize),
            None => None,
        }),
{
    let ghost tv = texture_views(ts@);
    proof {
        lemma_find_path(tv, path@);
    }
    let mut i: usize = 0;
    while i < ts.len()
        invariant
            0 <= i <= ts@.len(),
            tv == texture_views(ts@),
            find_path(tv.take(i as int), path@) is None,
        decreases ts@.len() - i,
    {
        assert(tv.take(i + 1).drop_last() =~= tv.take(i as int));
        if str_equals(ts[i].path.as_str(), path.as_str()) {
            assert(find_path(tv.take(i + 1), path@) == Some(i as int));
            proof {
                lemma_find_path_prefix(tv, path@, i as int + 1);
            }
            return Some(i);
        }
        i = i + 1;
    }
    assert(tv.take(i as int) =~= tv);
    None
}

proof fn lemma_find_path_prefix(ts: Seq<TextureView>, path: Seq<char>, n: int)
    requires
        0 <= n <= ts.len(),
        find_path(ts.take(n), path) is Some,
    ensures
        find_path(ts, path) == find_path(ts.take(n), path),
    decreases ts.len() - n,
{
    if n < ts.len() {
        assert(ts.take(n + 1).drop_last() =~= ts.take(n));
        lemma_find_path_prefix(ts, path, n + 1);
    } else {
        assert(ts.take(n) =~= ts);
    }
}

/// The texture files of a material that are not loaded yet, each once, in the order they
/// appear.
pub fn textures_to_load(textures_loaded: &Vec<Texture>, files: &Vec<String>) -> (r: Vec<String>)
    ensures
        r@.map_values(|s: String| s@) == files_to_load(
            paths_of(texture_views(textures_loaded@)),
            files@.map_values(|s: String| s@),
        ),
{
    let ghost seen = paths_of(texture_views(textures_loaded@));
    let ghost fv = files@.map_values(|s: String| s@);
    let mut out: Vec<String> = Vec::new();
    let mut i: usize = 0;
    while i < files.len()
        invariant
            0 <= i <= files@.len(),
            seen == paths_of(texture_views(textures_loaded@)),
            fv == files@.map_values(|s: String| s@),
            out@.map_values(|s: String| s@) == files_to_load(seen, fv.take(i as int)),
        decreases files@.len() - i,
    {
        let ghost prev = out@.map_values(|s: String| s@);
        assert(fv.take(i + 1).drop_last() =~= fv.take(i as int));
        let f = &files[i];
        let mut found = position_of_path(textures_loaded, f).is_some();
        proof {
            lemma_find_path(texture_views(textures_loaded@), f@);
        }
        let mut j: usize = 0;
        while j < out.len() && !found
            invariant
                0 <= j <= out@.len(),
                prev == out@.map_values(|s: String| s@),
                found == (seen.contains(f@) || prev.take(j as int).contains(f@)),
            decreases out@.len() - j,
        {
            proof {
                lemma_contains_take_step(prev, j as int, f@);
            }
            if str_equals(out[j].as_str(), f.as_str()) {
                found = true;
            }
            j = j + 1;
        }
        proof {
            lemma_contains_concat(seen, prev, f@);
            if !found {
                assert(prev.take(j as int) =~= prev);
            } else if !seen.contains(f@) {
                lemma_contains_take(prev, j as int, f@);
            }
        }
        if !found {
            out.push(f.clone());
            assert(out@.map_values(|s: String| s@) =~= prev.push(f@));
        }
        i = i + 1;
    }
    assert(fv.take(i as int) =~= fv);
    out
}

/// The textures of a material whose texture files (of role `role`) are given, reusing
/// textures already loaded from the same file; textures for the other files take the
/// names in `new_ids` in turn (the caller has just created them from `textures_to_load`)
/// and join `textures_loaded`.
pub fn load_material_textures(
    textures_loaded: &mut Vec<Texture>,
    files: &Vec<String>,
    role: &String,
    new_ids: &Vec<u32>,
) -> (r: Vec<Texture>)
    requires
        new_ids@.len() == files_to_load(
            paths_of(texture_views(old(textures_loaded)@)),
            files@.map_values(|s: String| s@),
        ).len(),
    ensures
        ({
            let (l, out) = material_textures(
                texture_views(old(textures_loaded)@),
                files@.map_values(|s: String| s@),
                role@,
                new_ids@,
            );
            &&& texture_views(final(textures_loaded)@) == l
            &&& texture_views(r@) == out
            &&& all_distinct(paths_of(texture_views(old(textures_loaded)@))) ==> all_distinct(paths_of(l))
        }),
{
    let ghost start = texture_views(textures_loaded@);
    let ghost fv = files@.map_values(|s: String| s@);
    let mut out: Vec<Texture> = Vec::new();
    let mut used: usize = 0;
    let mut i: usize = 0;
    while i < files.len()
        invariant
            0 <= i <= files@.len(),
            fv == files@.map_values(|s: String| s@),
            new_ids@.len() == files_to_load(paths_of(start), fv).len(),
            ({
                let (l, o) = material_textures(start, fv.take(i as int), role@, new_ids@);
                &&& texture_views(textures_loaded@) == l
                &&& texture_views(out@) == o
                &&& used == l.len() - start.len()
            }),
        decreases files@.len() - i,
    {
        let ghost ti = fv.take(i as int);
        let ghost ti1 = fv.take(i + 1);
        assert(ti1.drop_last() =~= ti);
        assert(ti1.last() == files@[i as int]@);
        proof {
            lemma_material_shape(start, ti1, role@, new_ids@);
            lemma_material_shape(start, fv, role@, new_ids@);
            lemma_to_load_prefix(paths_of(start), fv, i as int + 1);
        }
        let f = &files[i];
        proof {
            lemma_find_path(texture_views(textures_loaded@), f@);
        }
        match position_of_path(textures_loaded, f) {
            Some(k) => {
                let ghost l = material_textures(start, ti, role@, new_ids@).0;
                let ghost o = material_textures(start, ti, role@, new_ids@).1;
                assert(l == texture_views(textures_loaded@));
                assert(o == texture_views(out@));
                assert(find_path(l, f@) is Some);
                let ghost kk = find_path(l, f@)->0;
                assert(0 <= kk < l.len());
                assert(l.len() == textures_loaded.len());
                assert(kk as usize == k);
                assert(find_path(l, f@) == Some(k as int));
                assert(material_textures(start, ti1, role@, new_ids@) == (l, o.push(l[k as int])));
                let t = copy_texture(&textures_loaded[k]);
                assert(texture_view(t) == texture_views(textures_loaded@)[k as int]);
                out.push(t);
                assert(texture_views(out@) =~= material_textures(start, ti1, role@, new_ids@).1);
            },
            None => {
                let ghost l = material_textures(start, ti, role@, new_ids@).0;
                let ghost o = material_textures(start, ti, role@, new_ids@).1;
                let ghost tv = TextureView { id: new_ids@[l.len() - start.len()], type_s: role@, path: f@ };
                assert(find_path(l, f@) is None);
                assert(material_textures(start, ti1, role@, new_ids@) == (l.push(tv), o.push(tv)));
                assert(material_textures(start, ti1, role@, new_ids@).0.len() == l.len() + 1);
                assert(used + 1 <= new_ids@.len());
                assert(new_ids@.len() == new_ids.len());
                let t = Texture { id: new_ids[used], type_s: role.clone(), path: f.clone() };
                let t2 = copy_texture(&t);
                assert(texture_view(t2) == tv);
                textures_loaded.push(t);
                out.push(t2);
                assert(texture_views(textures_loaded@) =~= material_textures(start, ti1, role@, new_ids@).0);
                assert(texture_views(out@) =~= material_textures(start, ti1, role@, new_ids@).1);
                used = used + 1;
            },
        }
        i = i + 1;
    }
    assert(fv.take(i as int) =~= fv);
    proof {
        if all_distinct(paths_of(start)) {
            lemma_cache_paths_distinct(start, fv, role@, new_ids@);
        }
    }
    out
}

proof fn lemma_to_load_prefix(seen: Seq<Seq<char>>, files: Seq<Seq<char>>, n: int)
    requires
        0 <= n <= files.len(),
    ensures
        files_to_load(seen, files.take(n)).len() <= files_to_load(seen, files).len(),
    decreases files.len() - n,
{
    if n < files.len() {
        assert(files.take(n + 1).drop_last() =~= files.take(n));
        lemma_to_load_prefix(seen, files, n + 1);
    } else {
        assert(files.take(n) =~= files);
    }
}

/// Loading material textures never records two textures of the same file.
pub proof fn lemma_cache_paths_distinct(
    loaded: Seq<TextureView>,
    files: Seq<Seq<char>>,
    type_s: Seq<char>,
    ids: Seq<u32>,
)
    requires
        all_distinct(paths_of(loaded)),
    ensures
        all_distinct(paths_of(material_textures(loaded, files, type_s, ids).0)),
        forall|i: int| 0 <= i < files.len() ==> #[trigger] material_textures(loaded, files, type_s, ids).1[i].path
            == files[i],
{
    lemma_material_shape(loaded, files, type_s, ids);
    lemma_to_load_fresh(paths_of(loaded), files);
}

} // verus!
