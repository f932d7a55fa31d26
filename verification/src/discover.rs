use vstd::prelude::*;
use vstd::std_specs::cmp::PartialEqSpecImpl;

use crate::error::VideoGenError;
use crate::text::{
    chars_lt, chars_of, decimal, join, join_strings, push_decimal, push_str, string_from_chars,
    lemma_text_lt_asymmetric, lemma_text_lt_irreflexive, text_lt, views_of,
};

verus! {

/// An image and an audio file that share a basename.
#[derive(Debug, Clone)]
pub struct Pair {
    pub basename: String,
    pub image: String,
    pub audio: String,
}

impl PartialEq for Pair {
    fn eq(&self, other: &Self) -> (res: bool) {
        self.basename == other.basename && self.image == other.image && self.audio == other.audio
    }
}

impl PartialEqSpecImpl for Pair {
    open spec fn obeys_eq_spec() -> bool {
        true
    }

    open spec fn eq_spec(&self, other: &Self) -> bool {
        self.basename@ == other.basename@ && self.image@ == other.image@ && self.audio@
            == other.audio@
    }
}

/// Which half of a pair is present: also the kind of a media file.
#[derive(Debug, Clone, Copy, PartialEq, Eq, Structural)]
pub enum OrphanKind {
    Image,
    Audio,
}

/// A media file whose basename has no partner of the other kind.
#[derive(Debug, Clone)]
pub struct Orphan {
    pub kind: OrphanKind,
    pub basename: String,
    pub path: String,
}

impl PartialEq for Orphan {
    fn eq(&self, other: &Self) -> (res: bool) {
        self.kind == other.kind && self.basename == other.basename && self.path == other.path
    }
}

impl PartialEqSpecImpl for Orphan {
    open spec fn obeys_eq_spec() -> bool {
        true
    }

    open spec fn eq_spec(&self, other: &Self) -> bool {
        self.kind == other.kind && self.basename@ == other.basename@ && self.path@ == other.path@
    }
}

#[derive(Debug, Clone)]
pub struct DiscoverResult {
    pub pairs: Vec<Pair>,
    pub orphans: Vec<Orphan>,
}

/// One directory entry as seen by the scan: its full path, its file name when
/// that is valid UTF-8, and whether it is a regular file.
#[derive(Debug, Clone)]
pub struct FileEntry {
    pub path: String,
    pub file_name: Option<String>,
    pub is_file: bool,
}

/// The index of the last `.` in `name`, or -1.
pub open spec fn last_dot(name: Seq<char>) -> int
    decreases name.len(),
{
    if name.len() == 0 {
        -1
    } else if name.last() == '.' {
        name.len() - 1
    } else {
        last_dot(name.drop_last())
    }
}

/// Whether a file name has an extension: a `.` after its first character
/// (the name `..` has none).
pub open spec fn has_extension(name: Seq<char>) -> bool {
    name != seq!['.', '.'] && last_dot(name) > 0
}

/// The file name without its extension, as `Path::file_stem` gives it.
pub open spec fn name_stem(name: Seq<char>) -> Seq<char> {
    if has_extension(name) {
        name.take(last_dot(name))
    } else {
        name
    }
}

/// The text after the last `.`, as `Path::extension` gives it.
pub open spec fn name_extension(name: Seq<char>) -> Option<Seq<char>> {
    if has_extension(name) {
        Some(name.skip(last_dot(name) + 1))
    } else {
        None
    }
}

/// `c` equals the lowercase character `p` once ASCII capitals are lowered.
pub open spec fn lowers_to(c: char, p: char) -> bool {
    if 'A' <= c && c <= 'Z' {
        (c as u32) + 32 == (p as u32)
    } else {
        c == p
    }
}

/// `x` in ASCII lowercase is `p` (`p` being lowercase).
pub open spec fn ext_is(x: Seq<char>, p: Seq<char>) -> bool {
    x.len() == p.len() && forall|i: int| 0 <= i < x.len() ==> lowers_to(#[trigger] x[i], p[i])
}

pub open spec fn is_image_ext(x: Seq<char>) -> bool {
    ||| ext_is(x, seq!['j', 'p', 'g'])
    ||| ext_is(x, seq!['j', 'p', 'e', 'g'])
    ||| ext_is(x, seq!['p', 'n', 'g'])
    ||| ext_is(x, seq!['w', 'e', 'b', 'p'])
}

pub open spec fn is_audio_ext(x: Seq<char>) -> bool {
    ||| ext_is(x, seq!['m', 'p', '3'])
    ||| ext_is(x, seq!['w', 'a', 'v'])
    ||| ext_is(x, seq!['m', '4', 'a'])
    ||| ext_is(x, seq!['f', 'l', 'a', 'c'])
}

/// What an entry contributes: nothing, or its media kind and basename.
pub open spec fn classify(e: FileEntry) -> Option<(OrphanKind, Seq<char>)> {
    if !e.is_file {
        None
    } else {
        match e.file_name {
            None => None,
            Some(n) => match name_extension(n@) {
                None => None,
                Some(x) => if is_image_ext(x) {
                    Some((OrphanKind::Image, name_stem(n@)))
                } else if is_audio_ext(x) {
                    Some((OrphanKind::Audio, name_stem(n@)))
                } else {
                    None
                },
            },
        }
    }
}

proof fn lemma_last_dot_bounds(s: Seq<char>)
    ensures
        -1 <= last_dot(s) < s.len(),
        last_dot(s) >= 0 ==> s[last_dot(s)] == '.',
    decreases s.len(),
{
    if s.len() > 0 && s.last() != '.' {
        lemma_last_dot_bounds(s.drop_last());
    }
}

fn last_dot_exec(cs: &Vec<char>) -> (d: Option<usize>)
    ensures
        match d {
            Some(i) => i == last_dot(cs@),
            None => last_dot(cs@) == -1,
        },
{
    let mut d: Option<usize> = None;
    let mut i: usize = 0;
    assert(cs@.take(0) =~= Seq::<char>::empty());
    while i < cs.len()
        invariant
            i <= cs@.len(),
            match d {
                Some(j) => j == last_dot(cs@.take(i as int)),
                None => last_dot(cs@.take(i as int)) == -1,
            },
        decreases cs@.len() - i,
    {
        assert(cs@.take(i + 1).drop_last() =~= cs@.take(i as int));
        if cs[i] == '.' {
            d = Some(i);
        }
        i = i + 1;
    }
    assert(cs@.take(cs@.len() as int) =~= cs@);
    d
}

fn lowers_to_exec(c: char, p: char) -> (r: bool)
    ensures
        r == lowers_to(c, p),
{
    if 'A' <= c && c <= 'Z' {
        (c as u32) + 32 == (p as u32)
    } else {
        c == p
    }
}

/// Whether `cs[start..]` is `p` in ASCII lowercase.
fn ext_is_exec(cs: &Vec<char>, start: usize, p: &Vec<char>) -> (r: bool)
    requires
        start <= cs@.len(),
    ensures
        r == ext_is(cs@.skip(start as int), p@),
{
    let ghost x = cs@.skip(start as int);
    if cs.len() - start != p.len() {
        return false;
    }
    let n = cs.len();
    let mut i: usize = 0;
    while i < p.len()
        invariant
            n == cs@.len(),
            x == cs@.skip(start as int),
            x.len() == p@.len(),
            start + p@.len() == cs@.len(),
            i <= p@.len(),
            forall|j: int| 0 <= j < i ==> lowers_to(#[trigger] x[j], p@[j]),
        decreases p@.len() - i,
    {
        assert(start + i < cs@.len());
        if !lowers_to_exec(cs[start + i], p[i]) {
            assert(x[i as int] == cs@[start + i]);
            return false;
        }
        assert(x[i as int] == cs@[start + i]);
        i = i + 1;
    }
    true
}

fn is_image_ext_exec(cs: &Vec<char>, start: usize) -> (r: bool)
    requires
        start <= cs@.len(),
    ensures
        r == is_image_ext(cs@.skip(start as int)),
{
    let a = ext_is_exec(cs, start, &vec!['j', 'p', 'g']);
    let b = ext_is_exec(cs, start, &vec!['j', 'p', 'e', 'g']);
    let c = ext_is_exec(cs, start, &vec!['p', 'n', 'g']);
    let d = ext_is_exec(cs, start, &vec!['w', 'e', 'b', 'p']);
    a || b || c || d
}

fn is_audio_ext_exec(cs: &Vec<char>, start: usize) -> (r: bool)
    requires
        start <= cs@.len(),
    ensures
        r == is_audio_ext(cs@.skip(start as int)),
{
    let a = ext_is_exec(cs, start, &vec!['m', 'p', '3']);
    let b = ext_is_exec(cs, start, &vec!['w', 'a', 'v']);
    let c = ext_is_exec(cs, start, &vec!['m', '4', 'a']);
    let d = ext_is_exec(cs, start, &vec!['f', 'l', 'a', 'c']);
    a || b || c || d
}

/// The media kind and basename of an entry, or nothing when it is not a
/// regular file with an image or audio extension.
fn classify_entry(e: &FileEntry) -> (r: Option<(OrphanKind, String)>)
    ensures
        match r {
            Some((k, b)) => classify(*e) == Some((k, b@)),
            None => classify(*e) is None,
        },
{
    if !e.is_file {
        return None;
    }
    match &e.file_name {
        None => None,
        Some(n) => {
            let cs = chars_of(n.as_str());
            let dot = last_dot_exec(&cs);
            proof {
                lemma_last_dot_bounds(cs@);
            }
            let dotdot = cs.len() == 2 && cs[0] == '.' && cs[1] == '.';
            proof {
                if cs@.len() == 2 {
                    assert(dotdot == (cs@ =~= seq!['.', '.']));
                } else {
                    assert(cs@ != seq!['.', '.']);
                }
            }
            let d = match dot {
                None => {
                    return None;
                },
                Some(d) => d,
            };
            if dotdot || d == 0 {
                return None;
            }
            let image = is_image_ext_exec(&cs, d + 1);
            let audio = is_audio_ext_exec(&cs, d + 1);
            if image {
                Some((OrphanKind::Image, string_from_chars(&cs, 0, d)))
            } else if audio {
                Some((OrphanKind::Audio, string_from_chars(&cs, 0, d)))
            } else {
                None
            }
        },
    }
}

} // verus!

verus! {

/// A media file found by the scan.
#[derive(Debug, Clone)]
pub struct MediaFile {
    pub kind: OrphanKind,
    pub basename: String,
    pub path: String,
}

/// A media file as a mathematical value: kind, basename and path.
pub type MediaModel = (OrphanKind, Seq<char>, Seq<char>);

pub open spec fn media_views(v: Seq<MediaFile>) -> Seq<MediaModel> {
    v.map_values(|m: MediaFile| (m.kind, m.basename@, m.path@))
}

/// The media files among the entries, in scan order.
pub open spec fn media(entries: Seq<FileEntry>) -> Seq<MediaModel>
    decreases entries.len(),
{
    if entries.len() == 0 {
        Seq::empty()
    } else {
        let rest = media(entries.drop_last());
        match classify(entries.last()) {
            Some((k, b)) => rest.push((k, b, entries.last().path@)),
            None => rest,
        }
    }
}

/// The paths of the media files of a kind with a basename, in scan order.
pub open spec fn paths_for(m: Seq<MediaModel>, kind: OrphanKind, base: Seq<char>) -> Seq<Seq<char>>
    decreases m.len(),
{
    if m.len() == 0 {
        Seq::empty()
    } else {
        let rest = paths_for(m.drop_last(), kind, base);
        if m.last().0 == kind && m.last().1 == base {
            rest.push(m.last().2)
        } else {
            rest
        }
    }
}

/// Whether some file of the kind has the basename.
pub open spec fn has(m: Seq<MediaModel>, kind: OrphanKind, base: Seq<char>) -> bool {
    paths_for(m, kind, base).len() > 0
}

/// File `i` is of the kind and shares its basename with another file of that kind.
pub open spec fn is_dup(m: Seq<MediaModel>, kind: OrphanKind, i: int) -> bool {
    0 <= i < m.len() && m[i].0 == kind && paths_for(m, kind, m[i].1).len() > 1
}

/// The first file, from `i` on, that `is_dup`; -1 when there is none.
pub open spec fn dup_scan(m: Seq<MediaModel>, kind: OrphanKind, i: int) -> int
    decreases m.len() - i,
{
    if i < 0 || i >= m.len() {
        -1
    } else if is_dup(m, kind, i) {
        i
    } else {
        dup_scan(m, kind, i + 1)
    }
}

/// The message for a basename matched by several files of one kind.
pub open spec fn ambiguous_message(label: Seq<char>, base: Seq<char>, paths: Seq<Seq<char>>) -> Seq<
    char,
> {
    "ambiguous basename: "@ + base + "\n  matched "@ + decimal(paths.len()) + " "@ + label + ": "@
        + join(paths, ", "@) + "\n  v0.1 only supports 1:1 pairing — 请合并或重命名"@
}

fn media_files(entries: &[FileEntry]) -> (v: Vec<MediaFile>)
    ensures
        media_views(v@) == media(entries@),
{
    let mut v: Vec<MediaFile> = Vec::new();
    let mut i: usize = 0;
    assert(entries@.take(0) =~= Seq::<FileEntry>::empty());
    while i < entries.len()
        invariant
            i <= entries@.len(),
            media_views(v@) == media(entries@.take(i as int)),
        decreases entries@.len() - i,
    {
        let e = &entries[i];
        assert(entries@.take(i + 1).drop_last() =~= entries@.take(i as int));
        assert(entries@.take(i + 1).last() == *e);
        match classify_entry(e) {
            Some((k, b)) => {
                v.push(MediaFile { kind: k, basename: b, path: e.path.clone() });
                assert(media_views(v@) =~= media(entries@.take(i + 1)));
            },
            None => {},
        }
        i = i + 1;
    }
    assert(entries@.take(entries@.len() as int) =~= entries@);
    v
}

/// The paths of the media files of a kind with a basename.
fn paths_of(files: &Vec<MediaFile>, kind: OrphanKind, base: &String) -> (v: Vec<String>)
    ensures
        views_of(v@) == paths_for(media_views(files@), kind, base@),
{
    let ghost m = media_views(files@);
    let mut v: Vec<String> = Vec::new();
    let mut i: usize = 0;
    assert(m.take(0) =~= Seq::<MediaModel>::empty());
    while i < files.len()
        invariant
            m == media_views(files@),
            i <= files@.len(),
            views_of(v@) == paths_for(m.take(i as int), kind, base@),
        decreases files@.len() - i,
    {
        assert(m.take(i + 1).drop_last() =~= m.take(i as int));
        assert(m.take(i + 1).last() == m[i as int]);
        if files[i].kind == kind && files[i].basename == *base {
            v.push(files[i].path.clone());
        }
        assert(views_of(v@) =~= paths_for(m.take(i + 1), kind, base@));
        i = i + 1;
    }
    assert(m.take(files@.len() as int) =~= m);
    v
}

fn ambiguous_error(label: &str, base: &String, paths: &Vec<String>) -> (e: VideoGenError)
    ensures
        e.spec_kind() == crate::error::ErrorKind::User,
        e.spec_message() == ambiguous_message(label@, base@, views_of(paths@)),
{
    let mut msg = String::new();
    push_str(&mut msg, "ambiguous basename: ");
    push_str(&mut msg, base.as_str());
    push_str(&mut msg, "\n  matched ");
    push_decimal(&mut msg, paths.len() as u64);
    push_str(&mut msg, " ");
    push_str(&mut msg, label);
    push_str(&mut msg, ": ");
    let joined = join_strings(paths, ", ");
    push_str(&mut msg, joined.as_str());
    push_str(&mut msg, "\n  v0.1 only supports 1:1 pairing — 请合并或重命名");
    assert(msg@ =~= ambiguous_message(label@, base@, views_of(paths@)));
    VideoGenError::user(msg)
}

/// Finds the first file of the kind whose basename is shared by another file
/// of that kind, and returns the error that names it.
fn reject_duplicates(label: &str, files: &Vec<MediaFile>, kind: OrphanKind) -> (r: Result<(), VideoGenError>)
    ensures
        ({
            let m = media_views(files@);
            let i = dup_scan(m, kind, 0);
            &&& r is Ok <==> i == -1
            &&& r matches Err(e) ==> e.spec_kind() == crate::error::ErrorKind::User
                && e.spec_message() == ambiguous_message(label@, m[i].1, paths_for(m, kind, m[i].1))
        }),
{
    let ghost m = media_views(files@);
    let mut i: usize = 0;
    while i < files.len()
        invariant
            m == media_views(files@),
            i <= files@.len(),
            dup_scan(m, kind, 0) == dup_scan(m, kind, i as int),
        decreases files@.len() - i,
    {
        if files[i].kind == kind {
            let paths = paths_of(files, kind, &files[i].basename);
            if paths.len() > 1 {
                return Err(ambiguous_error(label, &files[i].basename, &paths));
            }
        }
        i = i + 1;
    }
    Ok(())
}

} // verus!

verus! {

/// Some media file has the basename.
pub open spec fn is_base(m: Seq<MediaModel>, b: Seq<char>) -> bool {
    exists|i: int| 0 <= i < m.len() && #[trigger] m[i].1 == b
}

/// Strictly increasing in the order of `str`.
pub open spec fn strictly_sorted(s: Seq<Seq<char>>) -> bool {
    forall|i: int, j: int| 0 <= i < j < s.len() ==> text_lt(#[trigger] s[i], #[trigger] s[j])
}

proof fn lemma_has_is_base(m: Seq<MediaModel>, kind: OrphanKind, b: Seq<char>)
    requires
        has(m, kind, b),
    ensures
        is_base(m, b),
    decreases m.len(),
{
    if m.last().0 == kind && m.last().1 == b {
        assert(m[m.len() - 1].1 == b);
    } else {
        lemma_has_is_base(m.drop_last(), kind, b);
        let i = choose|i: int| 0 <= i < m.drop_last().len() && #[trigger] m.drop_last()[i].1 == b;
        assert(m[i].1 == b);
    }
}

proof fn lemma_insert_sorted(s: Seq<Seq<char>>, k: int, x: Seq<char>)
    requires
        strictly_sorted(s),
        0 <= k <= s.len(),
        forall|q: int| 0 <= q < k ==> text_lt(#[trigger] s[q], x),
        k < s.len() ==> text_lt(x, s[k]),
    ensures
        strictly_sorted(s.insert(k, x)),
{
    let t = s.insert(k, x);
    assert forall|i: int, j: int| 0 <= i < j < t.len() implies text_lt(#[trigger] t[i], #[trigger] t[j]) by {
        if j < k {
            assert(t[i] == s[i] && t[j] == s[j]);
        } else if j == k {
            assert(t[i] == s[i]);
        } else if i == k {
            assert(t[j] == s[j - 1]);
            if j - 1 > k {
                crate::text::lemma_text_lt_transitive(x, s[k], s[j - 1]);
            }
        } else if i < k {
            assert(t[i] == s[i] && t[j] == s[j - 1]);
        } else {
            assert(t[i] == s[i - 1] && t[j] == s[j - 1]);
        }
    }
}

/// Every basename of the media files, once each, in the order of `str`.
fn sorted_basenames(files: &Vec<MediaFile>) -> (v: Vec<String>)
    ensures
        strictly_sorted(views_of(v@)),
        forall|b: Seq<char>| views_of(v@).contains(b) <==> is_base(media_views(files@), b),
{
    let ghost m = media_views(files@);
    let mut v: Vec<String> = Vec::new();
    let mut i: usize = 0;
    while i < files.len()
        invariant
            m == media_views(files@),
            i <= files@.len(),
            strictly_sorted(views_of(v@)),
            forall|b: Seq<char>|
                views_of(v@).contains(b) <==> exists|j: int| 0 <= j < i && #[trigger] m[j].1 == b,
        decreases files@.len() - i,
    {
        let x = &files[i].basename;
        let xc = chars_of(x.as_str());
        let ghost s = views_of(v@);
        let mut k: usize = 0;
        while k < v.len() && chars_lt(&chars_of(v[k].as_str()), &xc)
            invariant
                s == views_of(v@),
                k <= v@.len(),
                xc@ == x@,
                forall|q: int| 0 <= q < k ==> text_lt(#[trigger] s[q], x@),
            decreases v@.len() - k,
        {
            k = k + 1;
        }
        assert(m[i as int].1 == x@);
        if k < v.len() && v[k] == *x {
            assert(s[k as int] == x@);
            assert forall|b: Seq<char>|
                s.contains(b) <==> exists|j: int| 0 <= j < i + 1 && #[trigger] m[j].1 == b by {
                if b == x@ {
                    assert(s[k as int] == b);
                }
            }
        } else {
            proof {
                if k < s.len() {
                    assert(!text_lt(s[k as int], x@));
                    assert(s[k as int] != x@);
                    crate::text::lemma_text_lt_total(s[k as int], x@);
                }
                lemma_insert_sorted(s, k as int, x@);
            }
            v.insert(k, x.clone());
            assert(views_of(v@) =~= s.insert(k as int, x@));
            assert forall|b: Seq<char>|
                views_of(v@).contains(b) <==> exists|j: int| 0 <= j < i + 1 && #[trigger] m[j].1 == b by {
                let t = views_of(v@);
                if t.contains(b) {
                    let q = choose|q: int| 0 <= q < t.len() && t[q] == b;
                    if q < k {
                        assert(s[q] == b);
                        assert(s.contains(b));
                    } else if q > k {
                        assert(s[q - 1] == b);
                        assert(s.contains(b));
                    }
                }
                if exists|j: int| 0 <= j < i + 1 && #[trigger] m[j].1 == b {
                    if b == x@ {
                        assert(t[k as int] == b);
                    } else {
                        let j = choose|j: int| 0 <= j < i + 1 && #[trigger] m[j].1 == b;
                        assert(j < i);
                        assert(s.contains(b));
                        let q = choose|q: int| 0 <= q < s.len() && s[q] == b;
                        if q < k {
                            assert(t[q] == b);
                        } else {
                            assert(t[q + 1] == b);
                        }
                    }
                }
            }
        }
        i = i + 1;
    }
    v
}

} // verus!

verus! {

pub open spec fn pair_names(p: Seq<Pair>) -> Seq<Seq<char>> {
    p.map_values(|x: Pair| x.basename@)
}

pub open spec fn orphan_names(o: Seq<Orphan>) -> Seq<Seq<char>> {
    o.map_values(|x: Orphan| x.basename@)
}

/// The pairs are the basenames that have both an image and an audio file, in
/// the order of `str`, each with its image and its audio.
pub open spec fn pairs_match(m: Seq<MediaModel>, pairs: Seq<Pair>) -> bool {
    &&& strictly_sorted(pair_names(pairs))
    &&& forall|b: Seq<char>|
        pair_names(pairs).contains(b) <==> (has(m, OrphanKind::Image, b) && has(
            m,
            OrphanKind::Audio,
            b,
        ))
    &&& forall|k: int|
        0 <= k < pairs.len() ==> {
            let p = #[trigger] pairs[k];
            &&& p.image@ == paths_for(m, OrphanKind::Image, p.basename@)[0]
            &&& p.audio@ == paths_for(m, OrphanKind::Audio, p.basename@)[0]
        }
}

/// The orphans are the basenames that have files of only one kind, in the
/// order of `str`, each with that kind and its file.
pub open spec fn orphans_match(m: Seq<MediaModel>, orphans: Seq<Orphan>) -> bool {
    &&& strictly_sorted(orphan_names(orphans))
    &&& forall|b: Seq<char>|
        orphan_names(orphans).contains(b) <==> (has(m, OrphanKind::Image, b) != has(
            m,
            OrphanKind::Audio,
            b,
        ))
    &&& forall|k: int|
        0 <= k < orphans.len() ==> {
            let o = #[trigger] orphans[k];
            &&& has(m, o.kind, o.basename@)
            &&& o.path@ == paths_for(m, o.kind, o.basename@)[0]
        }
}

/// Some basename has both an image and an audio file.
pub open spec fn pairable(m: Seq<MediaModel>) -> bool {
    exists|i: int|
        0 <= i < m.len() && has(m, OrphanKind::Image, #[trigger] m[i].1) && has(
            m,
            OrphanKind::Audio,
            m[i].1,
        )
}

pub open spec fn missing_dir_message(root: Seq<char>) -> Seq<char> {
    "input dir does not exist: "@ + root
}

pub open spec fn no_pairs_message(root: Seq<char>) -> Seq<char> {
    "no image/audio pairs found in "@ + root
}

/// Pairs the media files of a scanned input directory by basename.
///
/// `entries` are the entries of the directory, then of its `images` and
/// `audio` subdirectories, in that order. Fails when the directory does not
/// exist, when a basename has two images or two audio files (images are
/// checked first), or when no basename has both.
pub fn discover_entries(root: &str, root_exists: bool, entries: &[FileEntry]) -> (res: Result<
    DiscoverResult,
    VideoGenError,
>)
    ensures
        ({
            let m = media(entries@);
            let di = dup_scan(m, OrphanKind::Image, 0);
            let da = dup_scan(m, OrphanKind::Audio, 0);
            &&& res is Ok <==> (root_exists && di == -1 && da == -1 && pairable(m))
            &&& res matches Err(e) ==> e.spec_kind() == crate::error::ErrorKind::User
            &&& res matches Err(e) ==> e.spec_message() == if !root_exists {
                missing_dir_message(root@)
            } else if di != -1 {
                ambiguous_message(
                    "images"@,
                    m[di].1,
                    paths_for(m, OrphanKind::Image, m[di].1),
                )
            } else if da != -1 {
                ambiguous_message(
                    "audios"@,
                    m[da].1,
                    paths_for(m, OrphanKind::Audio, m[da].1),
                )
            } else {
                no_pairs_message(root@)
            }
            &&& res matches Ok(r) ==> pairs_match(m, r.pairs@) && orphans_match(m, r.orphans@)
        }),
{
    if !root_exists {
        let mut msg = String::new();
        push_str(&mut msg, "input dir does not exist: ");
        push_str(&mut msg, root);
        return Err(VideoGenError::user(msg));
    }
    let files = media_files(entries);
    let ghost m = media(entries@);
    reject_duplicates("images", &files, OrphanKind::Image)?;
    reject_duplicates("audios", &files, OrphanKind::Audio)?;
    let bases = sorted_basenames(&files);
    let ghost bs = views_of(bases@);
    let mut pairs: Vec<Pair> = Vec::new();
    let mut orphans: Vec<Orphan> = Vec::new();
    let mut k: usize = 0;
    while k < bases.len()
        invariant
            m == media_views(files@),
            bs == views_of(bases@),
            strictly_sorted(bs),
            forall|b: Seq<char>| bs.contains(b) <==> is_base(m, b),
            k <= bs.len(),
            strictly_sorted(pair_names(pairs@)),
            strictly_sorted(orphan_names(orphans@)),
            forall|q: int|
                0 <= q < pairs@.len() ==> exists|t: int|
                    0 <= t < k && #[trigger] pair_names(pairs@)[q] == bs[t],
            forall|q: int|
                0 <= q < orphans@.len() ==> exists|t: int|
                    0 <= t < k && #[trigger] orphan_names(orphans@)[q] == bs[t],
            forall|b: Seq<char>|
                pair_names(pairs@).contains(b) <==> (exists|t: int| 0 <= t < k && #[trigger] bs[t] == b)
                    && has(m, OrphanKind::Image, b) && has(m, OrphanKind::Audio, b),
            forall|b: Seq<char>|
                orphan_names(orphans@).contains(b) <==> (exists|t: int|
                    0 <= t < k && #[trigger] bs[t] == b) && (has(m, OrphanKind::Image, b) != has(
                    m,
                    OrphanKind::Audio,
                    b,
                )),
            forall|q: int|
                0 <= q < pairs@.len() ==> {
                    let p = #[trigger] pairs@[q];
                    &&& p.image@ == paths_for(m, OrphanKind::Image, p.basename@)[0]
                    &&& p.audio@ == paths_for(m, OrphanKind::Audio, p.basename@)[0]
                },
            forall|q: int|
                0 <= q < orphans@.len() ==> {
                    let o = #[trigger] orphans@[q];
                    &&& has(m, o.kind, o.basename@)
                    &&& o.path@ == paths_for(m, o.kind, o.basename@)[0]
                },
        decreases bs.len() - k,
    {
        let base = &bases[k];
        let images = paths_of(&files, OrphanKind::Image, base);
        let audios = paths_of(&files, OrphanKind::Audio, base);
        let ghost b = base@;
        let ghost old_pairs = pair_names(pairs@);
        let ghost old_orphans = orphan_names(orphans@);
        assert(bs[k as int] == b);
        proof {
            assert forall|q: int| 0 <= q < old_pairs.len() implies text_lt(#[trigger] old_pairs[q], b) by {
                let t = choose|t: int| 0 <= t < k && #[trigger] old_pairs[q] == bs[t];
            }
            assert forall|q: int| 0 <= q < old_orphans.len() implies text_lt(#[trigger] old_orphans[q], b) by {
                let t = choose|t: int| 0 <= t < k && #[trigger] old_orphans[q] == bs[t];
            }
        }
        if images.len() > 0 && audios.len() > 0 {
            pairs.push(Pair { basename: base.clone(), image: images[0].clone(), audio: audios[0].clone() });
            proof {
                let np = pair_names(pairs@);
                assert(np =~= old_pairs.push(b));
                assert forall|q: int| 0 <= q < pairs@.len() implies exists|t: int|
                    0 <= t < k + 1 && #[trigger] pair_names(pairs@)[q] == bs[t] by {
                    if q < old_pairs.len() {
                        let t = choose|t: int| 0 <= t < k && #[trigger] old_pairs[q] == bs[t];
                        assert(np[q] == bs[t]);
                    } else {
                        assert(np[q] == bs[k as int]);
                    }
                }
                assert forall|b2: Seq<char>| np.contains(b2) implies old_pairs.contains(b2) || b2 == b by {
                    let q = choose|q: int| 0 <= q < np.len() && np[q] == b2;
                    if q < old_pairs.len() {
                        assert(old_pairs[q] == b2);
                    }
                }
                assert forall|b2: Seq<char>| old_pairs.contains(b2) || b2 == b implies np.contains(b2) by {
                    if b2 == b {
                        assert(np[np.len() - 1] == b2);
                    } else {
                        let q = choose|q: int| 0 <= q < old_pairs.len() && old_pairs[q] == b2;
                        assert(np[q] == b2);
                    }
                }
            }
        } else if images.len() > 0 {
            orphans.push(Orphan { kind: OrphanKind::Image, basename: base.clone(), path: images[0].clone() });
            proof {
                let no = orphan_names(orphans@);
                assert(no =~= old_orphans.push(b));
                assert forall|q: int| 0 <= q < orphans@.len() implies exists|t: int|
                    0 <= t < k + 1 && #[trigger] orphan_names(orphans@)[q] == bs[t] by {
                    if q < old_orphans.len() {
                        let t = choose|t: int| 0 <= t < k && #[trigger] old_orphans[q] == bs[t];
                        assert(no[q] == bs[t]);
                    } else {
                        assert(no[q] == bs[k as int]);
                    }
                }
                assert forall|b2: Seq<char>| no.contains(b2) implies old_orphans.contains(b2) || b2 == b by {
                    let q = choose|q: int| 0 <= q < no.len() && no[q] == b2;
                    if q < old_orphans.len() {
                        assert(old_orphans[q] == b2);
                    }
                }
                assert forall|b2: Seq<char>| old_orphans.contains(b2) || b2 == b implies no.contains(b2) by {
                    if b2 == b {
                        assert(no[no.len() - 1] == b2);
                    } else {
                        let q = choose|q: int| 0 <= q < old_orphans.len() && old_orphans[q] == b2;
                        assert(no[q] == b2);
                    }
                }
            }
        } else if audios.len() > 0 {
            orphans.push(Orphan { kind: OrphanKind::Audio, basename: base.clone(), path: audios[0].clone() });
            proof {
                let no = orphan_names(orphans@);
                assert(no =~= old_orphans.push(b));
                assert forall|q: int| 0 <= q < orphans@.len() implies exists|t: int|
                    0 <= t < k + 1 && #[trigger] orphan_names(orphans@)[q] == bs[t] by {
                    if q < old_orphans.len() {
                        let t = choose|t: int| 0 <= t < k && #[trigger] old_orphans[q] == bs[t];
                        assert(no[q] == bs[t]);
                    } else {
                        assert(no[q] == bs[k as int]);
                    }
                }
                assert forall|b2: Seq<char>| no.contains(b2) implies old_orphans.contains(b2) || b2 == b by {
                    let q = choose|q: int| 0 <= q < no.len() && no[q] == b2;
                    if q < old_orphans.len() {
                        assert(old_orphans[q] == b2);
                    }
                }
                assert forall|b2: Seq<char>| old_orphans.contains(b2) || b2 == b implies no.contains(b2) by {
                    if b2 == b {
                        assert(no[no.len() - 1] == b2);
                    } else {
                        let q = choose|q: int| 0 <= q < old_orphans.len() && old_orphans[q] == b2;
                        assert(no[q] == b2);
                    }
                }
            }
        }
        k = k + 1;
    }
    proof {
        assert forall|b: Seq<char>| has(m, OrphanKind::Image, b) implies bs.contains(b) by {
            lemma_has_is_base(m, OrphanKind::Image, b);
        }
        assert forall|b: Seq<char>| has(m, OrphanKind::Audio, b) implies bs.contains(b) by {
            lemma_has_is_base(m, OrphanKind::Audio, b);
        }
        assert forall|b: Seq<char>| bs.contains(b) <==> exists|t: int| 0 <= t < k && #[trigger] bs[t] == b by {
            if bs.contains(b) {
                let t = choose|t: int| 0 <= t < bs.len() && bs[t] == b;
                assert(bs[t] == b);
            }
        }
        assert forall|b: Seq<char>|
            pair_names(pairs@).contains(b) <==> (has(m, OrphanKind::Image, b) && has(
                m,
                OrphanKind::Audio,
                b,
            )) by {
            if has(m, OrphanKind::Image, b) {
                assert(bs.contains(b));
            }
        }
        assert forall|b: Seq<char>|
            orphan_names(orphans@).contains(b) <==> (has(m, OrphanKind::Image, b) != has(
                m,
                OrphanKind::Audio,
                b,
            )) by {
            if has(m, OrphanKind::Image, b) {
                assert(bs.contains(b));
            }
            if has(m, OrphanKind::Audio, b) {
                assert(bs.contains(b));
            }
        }
    }
    if pairs.len() == 0 {
        proof {
            if pairable(m) {
                let i = choose|i: int|
                    0 <= i < m.len() && has(m, OrphanKind::Image, #[trigger] m[i].1) && has(
                        m,
                        OrphanKind::Audio,
                        m[i].1,
                    );
                assert(bs.contains(m[i].1));
                assert(pair_names(pairs@).contains(m[i].1));
            }
        }
        let mut msg = String::new();
        push_str(&mut msg, "no image/audio pairs found in ");
        push_str(&mut msg, root);
        return Err(VideoGenError::user(msg));
    }
    proof {
        let p0 = pair_names(pairs@)[0];
        assert(pair_names(pairs@).contains(p0));
        lemma_has_is_base(m, OrphanKind::Image, p0);
        let i = choose|i: int| 0 <= i < m.len() && #[trigger] m[i].1 == p0;
        assert(has(m, OrphanKind::Image, m[i].1));
    }
    Ok(DiscoverResult { pairs, orphans })
}

} // verus!

verus! {

proof fn lemma_base_has(m: Seq<MediaModel>, i: int)
    requires
        0 <= i < m.len(),
    ensures
        has(m, m[i].0, m[i].1),
    decreases m.len(),
{
    if i < m.len() - 1 {
        lemma_base_has(m.drop_last(), i);
        assert(m.drop_last()[i] == m[i]);
    }
}

proof fn lemma_paths_for_witness(m: Seq<MediaModel>, kind: OrphanKind, b: Seq<char>, k: int)
    requires
        0 <= k < paths_for(m, kind, b).len(),
    ensures
        exists|i: int| 0 <= i < m.len() && m[i].0 == kind && #[trigger] m[i].1 == b,
    decreases m.len(),
{
    let rest = paths_for(m.drop_last(), kind, b);
    if m.last().0 == kind && m.last().1 == b {
        assert(m[m.len() - 1].1 == b);
    } else {
        lemma_paths_for_witness(m.drop_last(), kind, b, k);
        let i = choose|i: int| 0 <= i < m.drop_last().len() && m.drop_last()[i].0 == kind
            && #[trigger] m.drop_last()[i].1 == b;
        assert(m[i].1 == b);
    }
}

proof fn lemma_dup_scan_none(m: Seq<MediaModel>, kind: OrphanKind, i: int, j: int)
    requires
        0 <= i <= j < m.len(),
        dup_scan(m, kind, i) == -1,
    ensures
        !is_dup(m, kind, j),
    decreases j - i,
{
    if i < j {
        lemma_dup_scan_none(m, kind, i + 1, j);
    }
}

/// Pairing is one to one: once no basename has two files of one kind (the
/// condition for a result), every basename has at most one image and at most
/// one audio file.
pub proof fn law_discover_one_file_per_kind(m: Seq<MediaModel>, kind: OrphanKind, b: Seq<char>)
    requires
        dup_scan(m, kind, 0) == -1,
    ensures
        paths_for(m, kind, b).len() <= 1,
{
    if paths_for(m, kind, b).len() > 1 {
        lemma_paths_for_witness(m, kind, b, 0);
        let i = choose|i: int| 0 <= i < m.len() && m[i].0 == kind && #[trigger] m[i].1 == b;
        lemma_dup_scan_none(m, kind, 0, i);
    }
}

/// Every basename that the scan found is either a pair or an orphan, never
/// both: nothing is dropped without a warning.
pub proof fn law_discover_partition(
    m: Seq<MediaModel>,
    pairs: Seq<Pair>,
    orphans: Seq<Orphan>,
    b: Seq<char>,
)
    requires
        pairs_match(m, pairs),
        orphans_match(m, orphans),
    ensures
        !(pair_names(pairs).contains(b) && orphan_names(orphans).contains(b)),
        is_base(m, b) ==> (pair_names(pairs).contains(b) || orphan_names(orphans).contains(b)),
{
    if is_base(m, b) {
        let i = choose|i: int| 0 <= i < m.len() && #[trigger] m[i].1 == b;
        lemma_base_has(m, i);
    }
}

} // verus!

verus! {

/// Files that are neither images nor audio change nothing: with such an entry
/// added anywhere in the scan, the media files are the same, so
/// `discover_entries` fails or succeeds alike, with the same message or the
/// same pairs and orphans.
pub proof fn law_discover_ignores_other_files(entries: Seq<FileEntry>, at: int, other: FileEntry)
    requires
        0 <= at <= entries.len(),
        classify(other) is None,
    ensures
        media(entries.insert(at, other)) == media(entries),
    decreases entries.len(),
{
    let more = entries.insert(at, other);
    if at == entries.len() {
        assert(more.drop_last() =~= entries);
        assert(more.last() == other);
    } else {
        let shorter = entries.drop_last();
        law_discover_ignores_other_files(shorter, at, other);
        assert(more.drop_last() =~= shorter.insert(at, other));
        assert(more.last() == entries.last());
    }
}

} // verus!

verus! {

/// Two strictly sorted lists with the same members are the same list.
proof fn lemma_sorted_same_members(a: Seq<Seq<char>>, b: Seq<Seq<char>>)
    requires
        strictly_sorted(a),
        strictly_sorted(b),
        forall|x: Seq<char>| a.contains(x) <==> b.contains(x),
    ensures
        a == b,
    decreases a.len(),
{
    if a.len() == 0 {
        if b.len() > 0 {
            assert(b.contains(b[0]));
        }
        assert(a =~= b);
    } else {
        assert(a.contains(a[0]));
        assert(b.len() > 0);
        assert(b.contains(b[0]));
        let i = choose|i: int| 0 <= i < a.len() && a[i] == b[0];
        let j = choose|j: int| 0 <= j < b.len() && b[j] == a[0];
        if i > 0 && j > 0 {
            assert(text_lt(a[0], a[i]));
            assert(text_lt(b[0], b[j]));
            lemma_text_lt_asymmetric(a[0], b[0]);
        }
        assert(a[0] == b[0]);
        let a1 = a.drop_first();
        let b1 = b.drop_first();
        assert forall|x: Seq<char>| a1.contains(x) implies b1.contains(x) by {
            let k = choose|k: int| 0 <= k < a1.len() && a1[k] == x;
            assert(a[k + 1] == x);
            assert(a.contains(x));
            let q = choose|q: int| 0 <= q < b.len() && b[q] == x;
            if q == 0 {
                assert(text_lt(a[0], a[k + 1]));
                lemma_text_lt_irreflexive(x);
            } else {
                assert(b1[q - 1] == x);
            }
        }
        assert forall|x: Seq<char>| b1.contains(x) implies a1.contains(x) by {
            let k = choose|k: int| 0 <= k < b1.len() && b1[k] == x;
            assert(b[k + 1] == x);
            assert(b.contains(x));
            let q = choose|q: int| 0 <= q < a.len() && a[q] == x;
            if q == 0 {
                assert(text_lt(b[0], b[k + 1]));
                lemma_text_lt_irreflexive(x);
            } else {
                assert(a1[q - 1] == x);
            }
        }
        assert(strictly_sorted(a1)) by {
            assert forall|p: int, q: int| 0 <= p < q < a1.len() implies text_lt(
                #[trigger] a1[p],
                #[trigger] a1[q],
            ) by {
                assert(a1[p] == a[p + 1] && a1[q] == a[q + 1]);
            }
        }
        assert(strictly_sorted(b1)) by {
            assert forall|p: int, q: int| 0 <= p < q < b1.len() implies text_lt(
                #[trigger] b1[p],
                #[trigger] b1[q],
            ) by {
                assert(b1[p] == b[p + 1] && b1[q] == b[q + 1]);
            }
        }
        lemma_sorted_same_members(a1, b1);
        assert(a =~= seq![a[0]] + a1);
        assert(b =~= seq![b[0]] + b1);
    }
}

/// The pairs as mathematical values: basename, image and audio.
pub open spec fn pair_views(p: Seq<Pair>) -> Seq<(Seq<char>, Seq<char>, Seq<char>)> {
    p.map_values(|x: Pair| (x.basename@, x.image@, x.audio@))
}

/// The orphans as mathematical values: basename, kind and file.
pub open spec fn orphan_views(o: Seq<Orphan>) -> Seq<(Seq<char>, OrphanKind, Seq<char>)> {
    o.map_values(|x: Orphan| (x.basename@, x.kind, x.path@))
}

/// What discovery answers is fixed by the media files it found: any two
/// lists of pairs that match them are the same, and so are any two lists of
/// orphans. With `law_discover_ignores_other_files`, a directory with other
/// files added is answered exactly as before.
pub proof fn law_discover_answer_is_unique(
    m: Seq<MediaModel>,
    p1: Seq<Pair>,
    p2: Seq<Pair>,
    o1: Seq<Orphan>,
    o2: Seq<Orphan>,
)
    requires
        pairs_match(m, p1),
        pairs_match(m, p2),
        orphans_match(m, o1),
        orphans_match(m, o2),
    ensures
        pair_views(p1) == pair_views(p2),
        orphan_views(o1) == orphan_views(o2),
{
    lemma_sorted_same_members(pair_names(p1), pair_names(p2));
    lemma_sorted_same_members(orphan_names(o1), orphan_names(o2));
    assert(p1.len() == pair_names(p1).len());
    assert(o1.len() == orphan_names(o1).len());
    assert forall|k: int| 0 <= k < p1.len() implies #[trigger] pair_views(p1)[k] == pair_views(
        p2,
    )[k] by {
        assert(pair_names(p1)[k] == pair_names(p2)[k]);
        assert(p1[k].basename@ == p2[k].basename@);
    }
    assert forall|k: int| 0 <= k < o1.len() implies #[trigger] orphan_views(o1)[k] == orphan_views(
        o2,
    )[k] by {
        assert(orphan_names(o1)[k] == orphan_names(o2)[k]);
        let b = o1[k].basename@;
        assert(o2[k].basename@ == b);
        assert(orphan_names(o1).contains(b));
        assert(has(m, o1[k].kind, b) && has(m, o2[k].kind, b));
        if o1[k].kind != o2[k].kind {
            assert(has(m, OrphanKind::Image, b) && has(m, OrphanKind::Audio, b));
        }
    }
    assert(pair_views(p1) =~= pair_views(p2));
    assert(orphan_views(o1) =~= orphan_views(o2));
}

} // verus!

verus! {

proof fn lemma_last_dot_of_ext(b: Seq<char>, x: Seq<char>)
    requires
        forall|i: int| 0 <= i < x.len() ==> x[i] != '.',
    ensures
        last_dot(b + seq!['.'] + x) == b.len(),
    decreases x.len(),
{
    let n = b + seq!['.'] + x;
    if x.len() == 0 {
        assert(n.last() == '.');
    } else {
        assert(n.last() == x.last());
        assert(n.drop_last() =~= b + seq!['.'] + x.drop_last());
        lemma_last_dot_of_ext(b, x.drop_last());
    }
}

/// Which files are media: a regular file named `b.x`, with a non-empty `b`
/// and an extension `x` without a dot, is an image named `b` when `x` is
/// `jpg`, `jpeg`, `png` or `webp`, and audio named `b` when `x` is `mp3`,
/// `wav`, `m4a` or `flac`, in any ASCII case; with any other extension it is
/// no media file at all.
pub proof fn law_media_extensions(e: FileEntry, b: Seq<char>, x: Seq<char>)
    requires
        e.is_file,
        e.file_name matches Some(n) && n@ == b + seq!['.'] + x,
        b.len() > 0,
        forall|i: int| 0 <= i < x.len() ==> x[i] != '.',
    ensures
        (ext_is(x, "jpg"@) || ext_is(x, "jpeg"@) || ext_is(x, "png"@) || ext_is(x, "webp"@))
            ==> classify(e) == Some((OrphanKind::Image, b)),
        (ext_is(x, "mp3"@) || ext_is(x, "wav"@) || ext_is(x, "m4a"@) || ext_is(x, "flac"@))
            ==> classify(e) == Some((OrphanKind::Audio, b)),
        !(ext_is(x, "jpg"@) || ext_is(x, "jpeg"@) || ext_is(x, "png"@) || ext_is(x, "webp"@)
            || ext_is(x, "mp3"@) || ext_is(x, "wav"@) || ext_is(x, "m4a"@) || ext_is(x, "flac"@))
            ==> classify(e) is None,
{
    reveal_strlit("jpg");
    reveal_strlit("jpeg");
    reveal_strlit("png");
    reveal_strlit("webp");
    reveal_strlit("mp3");
    reveal_strlit("wav");
    reveal_strlit("m4a");
    reveal_strlit("flac");
    let n = b + seq!['.'] + x;
    lemma_last_dot_of_ext(b, x);
    if n == seq!['.', '.'] {
        assert(n.len() == 2);
        assert(x.len() == 0);
    } else {
        assert(n.take(b.len() as int) =~= b);
        assert(n.skip(b.len() as int + 1) =~= x);
        assert(name_stem(n) == b);
        assert(name_extension(n) == Some(x));
        assert("jpg"@ =~= seq!['j', 'p', 'g']);
        assert("jpeg"@ =~= seq!['j', 'p', 'e', 'g']);
        assert("png"@ =~= seq!['p', 'n', 'g']);
        assert("webp"@ =~= seq!['w', 'e', 'b', 'p']);
        assert("mp3"@ =~= seq!['m', 'p', '3']);
        assert("wav"@ =~= seq!['w', 'a', 'v']);
        assert("m4a"@ =~= seq!['m', '4', 'a']);
        assert("flac"@ =~= seq!['f', 'l', 'a', 'c']);
        if ext_is(x, "jpg"@) || ext_is(x, "jpeg"@) || ext_is(x, "png"@) || ext_is(x, "webp"@) {
            assert(is_image_ext(x));
        }
    }
}

} // verus!
