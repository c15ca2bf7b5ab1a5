use vstd::prelude::*;
use vstd::string::StrSliceExecFns;
use vstd::string::StringExecFns;

verus! {

/// What a directory scan produces: the ordered image paths, the index to
/// open first, and whether the scanned argument was a directory.
pub struct ScanResult {
    pub paths: Vec<String>,
    pub start_index: usize,
    pub is_dir: bool,
}

/// One entry of a directory listing as the walker hands it over: its path
/// and whether it is a regular file.
pub struct ScanEntry {
    pub path: String,
    pub is_file: bool,
}

/// ASCII case folding of one character; anything but `A`..`Z` is unchanged.
pub open spec fn spec_lower_char(c: char) -> char {
    if 65 <= c as int <= 90 {
        (c as int + 32) as char
    } else {
        c
    }
}

/// ASCII case folding of a character sequence.
pub open spec fn spec_ascii_lower(s: Seq<char>) -> Seq<char> {
    s.map_values(|c: char| spec_lower_char(c))
}

/// The last position strictly before `i` where `c` occurs in `s`, or -1.
pub open spec fn spec_last_pos(s: Seq<char>, c: char, i: int) -> int
    decreases i,
{
    if i <= 0 {
        -1
    } else if s[i - 1] == c {
        i - 1
    } else {
        spec_last_pos(s, c, i - 1)
    }
}

/// The extension of a path: what follows the last dot of the last path
/// component, provided that dot is not the component's first character (so a
/// bare dot-file has none).
pub open spec fn spec_extension_of(s: Seq<char>) -> Option<Seq<char>> {
    let slash = spec_last_pos(s, '/', s.len() as int);
    let dot = spec_last_pos(s, '.', s.len() as int);
    if dot > slash + 1 {
        Some(s.subrange(dot + 1, s.len() as int))
    } else {
        None
    }
}

/// A path names an image: it has an extension and some entry of the
/// extension list matches it after ASCII case folding of both sides, so a
/// plugin-declared `TIFF` serves `a.tiff` and a declared `tiff` serves
/// `a.TIFF` alike.
pub open spec fn spec_image_name(path: Seq<char>, extensions: Seq<String>) -> bool {
    match spec_extension_of(path) {
        Some(e) => exists|k: int|
            0 <= k < extensions.len() && spec_ascii_lower((#[trigger] extensions[k])@)
                == spec_ascii_lower(e),
        None => false,
    }
}

/// Folds one character to ASCII lower case.
pub fn lower_char(c: char) -> (r: char)
    ensures
        r == spec_lower_char(c),
{
    let u = c as u32;
    if 65 <= u && u <= 90 {
        ((u + 32) as u8) as char
    } else {
        c
    }
}

/// Character-for-character string equality.
pub fn str_eq(a: &str, b: &str) -> (r: bool)
    ensures
        r == (a@ == b@),
{
    let na = a.unicode_len();
    let nb = b.unicode_len();
    if na != nb {
        proof {
            assert(a@ != b@);
        }
        return false;
    }
    let mut i: usize = 0;
    while i < na
        invariant
            na == a@.len(),
            na == b@.len(),
            i <= na,
            forall|j: int| 0 <= j < i ==> a@[j] == b@[j],
        decreases na - i,
    {
        if a.get_char(i) != b.get_char(i) {
            proof {
                assert(a@[i as int] != b@[i as int]);
            }
            return false;
        }
        i = i + 1;
    }
    proof {
        assert(a@ =~= b@);
    }
    true
}

/// Whether the ASCII case foldings of two strings are equal: how extensions
/// are matched, so that declared and requested extensions meet in any case.
pub fn str_eq_fold_both(a: &str, b: &str) -> (r: bool)
    ensures
        r == (spec_ascii_lower(a@) == spec_ascii_lower(b@)),
{
    let na = a.unicode_len();
    let nb = b.unicode_len();
    if na != nb {
        proof {
            assert(spec_ascii_lower(a@).len() != spec_ascii_lower(b@).len());
        }
        return false;
    }
    let mut i: usize = 0;
    while i < na
        invariant
            na == a@.len(),
            na == b@.len(),
            i <= na,
            forall|j: int| 0 <= j < i ==> spec_lower_char(a@[j]) == spec_lower_char(b@[j]),
        decreases na - i,
    {
        if lower_char(a.get_char(i)) != lower_char(b.get_char(i)) {
            proof {
                assert(spec_ascii_lower(a@)[i as int] != spec_ascii_lower(b@)[i as int]);
            }
            return false;
        }
        i = i + 1;
    }
    proof {
        assert(spec_ascii_lower(a@) =~= spec_ascii_lower(b@));
    }
    true
}

/// Whether the ASCII case folding of `a` equals `b` exactly.
pub fn str_eq_folded(a: &str, b: &str) -> (r: bool)
    ensures
        r == (spec_ascii_lower(a@) == b@),
{
    let na = a.unicode_len();
    let nb = b.unicode_len();
    if na != nb {
        proof {
            assert(spec_ascii_lower(a@).len() == a@.len());
            assert(spec_ascii_lower(a@) != b@);
        }
        return false;
    }
    let mut i: usize = 0;
    while i < na
        invariant
            na == a@.len(),
            na == b@.len(),
            i <= na,
            forall|j: int| 0 <= j < i ==> spec_lower_char(a@[j]) == b@[j],
        decreases na - i,
    {
        if lower_char(a.get_char(i)) != b.get_char(i) {
            proof {
                assert(spec_ascii_lower(a@)[i as int] == spec_lower_char(a@[i as int]));
                assert(spec_ascii_lower(a@) != b@);
            }
            return false;
        }
        i = i + 1;
    }
    proof {
        assert(spec_ascii_lower(a@) =~= b@);
    }
    true
}

/// The last occurrence of `c` in `s`, scanning from the end.
pub fn last_pos_char(s: &str, c: char) -> (r: Option<usize>)
    ensures
        match r {
            Some(p) => p < s@.len() && spec_last_pos(s@, c, s@.len() as int) == p,
            None => spec_last_pos(s@, c, s@.len() as int) == -1,
        },
{
    let n = s.unicode_len();
    let mut i: usize = n;
    while i > 0
        invariant
            n == s@.len(),
            i <= n,
            spec_last_pos(s@, c, n as int) == spec_last_pos(s@, c, i as int),
        decreases i,
    {
        if s.get_char(i - 1) == c {
            return Some(i - 1);
        }
        i = i - 1;
    }
    None
}

/// Extracts the extension of a path, as `spec_extension_of` describes.
pub fn extension_of(path: &str) -> (r: Option<String>)
    ensures
        match r {
            Some(e) => spec_extension_of(path@) == Some(e@),
            None => spec_extension_of(path@) is None,
        },
{
    let n = path.unicode_len();
    let slash = last_pos_char(path, '/');
    let dot = last_pos_char(path, '.');
    match dot {
        None => None,
        Some(d) => {
            let after_start = match slash {
                None => d > 0,
                Some(sl) => d > sl && d - sl > 1,
            };
            if after_start {
                Some(path.substring_char(d + 1, n).to_owned())
            } else {
                None
            }
        },
    }
}

/// Whether a path names a supported image: it has an extension and the
/// extension list holds it, matched with ASCII case folding on both sides.
pub fn is_image(path: &str, extensions: &Vec<String>) -> (r: bool)
    ensures
        r == spec_image_name(path@, extensions@),
{
    let ext = match extension_of(path) {
        Some(e) => e,
        None => {
            return false;
        },
    };
    let n = extensions.len();
    let mut k: usize = 0;
    while k < n
        invariant
            n == extensions@.len(),
            k <= n,
            spec_extension_of(path@) == Some(ext@),
            forall|j: int|
                0 <= j < k ==> spec_ascii_lower((#[trigger] extensions@[j])@)
                    != spec_ascii_lower(ext@),
        decreases n - k,
    {
        if str_eq_fold_both(extensions[k].as_str(), ext.as_str()) {
            return true;
        }
        k = k + 1;
    }
    false
}

/// Whether a path names one of the basic image types handled without any
/// plugin: jpg, jpeg or png, in any letter case.
pub fn is_img_path(path: &str) -> (r: bool)
    ensures
        r == ({
            match spec_extension_of(path@) {
                Some(e) => spec_ascii_lower(e) == "jpg"@ || spec_ascii_lower(e) == "jpeg"@
                    || spec_ascii_lower(e) == "png"@,
                None => false,
            }
        }),
{
    let ext = match extension_of(path) {
        Some(e) => e,
        None => {
            return false;
        },
    };
    str_eq_folded(ext.as_str(), "jpg") || str_eq_folded(ext.as_str(), "jpeg") || str_eq_folded(
        ext.as_str(),
        "png",
    )
}

/// An entry survives the scan: it is a regular file and names an image.
pub open spec fn spec_scan_keeps(e: ScanEntry, extensions: Seq<String>) -> bool {
    e.is_file && spec_image_name(e.path@, extensions)
}

/// The catalog a listing yields: the paths of the entries that are regular
/// files with a supported image extension, in listing order.
pub open spec fn spec_scan_paths(entries: Seq<ScanEntry>, extensions: Seq<String>) -> Seq<String> {
    entries.filter(|e: ScanEntry| spec_scan_keeps(e, extensions)).map_values(|e: ScanEntry| e.path)
}

/// Builds the catalog from a directory listing, already ordered by file
/// name: keeps the regular files whose extension is in the list, records
/// which kept entry equals `start_path` (the single file the viewer was
/// started on) as the starting index, and reports a directory start (no
/// `start_path`) with index zero.
#[verifier::rlimit(50)]
pub fn scan_listing(entries: &Vec<ScanEntry>, extensions: &Vec<String>, start_path: Option<&str>) -> (r:
    ScanResult)
    ensures
        r.paths@ == spec_scan_paths(entries@, extensions@),
        r.is_dir == (start_path is None),
        start_path matches Some(sp) ==> ((exists|k: int|
            0 <= k < r.paths@.len() && (#[trigger] r.paths@[k])@ == sp@) ==> r.start_index
            < r.paths@.len() && r.paths@[r.start_index as int]@ == sp@),
        start_path matches Some(sp) ==> ((forall|k: int|
            0 <= k < r.paths@.len() ==> (#[trigger] r.paths@[k])@ != sp@) ==> r.start_index == 0),
        start_path is None ==> r.start_index == 0,
{
    let ghost pred = |e: ScanEntry| spec_scan_keeps(e, extensions@);
    let mut paths: Vec<String> = Vec::new();
    let mut start_index: usize = 0;
    let ghost mut matched: bool = false;
    let n = entries.len();
    let mut i: usize = 0;
    while i < n
        invariant
            n == entries@.len(),
            i <= n,
            pred == (|e: ScanEntry| spec_scan_keeps(e, extensions@)),
            paths@ == entries@.subrange(0, i as int).filter(pred).map_values(
                |e: ScanEntry| e.path,
            ),
            match start_path {
                Some(sp) => {
                    &&& (matched ==> start_index < paths@.len() && paths@[start_index as int]@
                        == sp@)
                    &&& (!matched ==> start_index == 0 && (forall|k: int|
                        0 <= k < paths@.len() ==> (#[trigger] paths@[k])@ != sp@))
                },
                None => start_index == 0,
            },
        decreases n - i,
    {
        let ghost entries_pfx = entries@.subrange(0, i as int);
        let ghost paths0 = paths@;
        let e = &entries[i];
        if e.is_file && is_image(e.path.as_str(), extensions) {
            if let Some(sp) = start_path {
                if str_eq(e.path.as_str(), sp) {
                    start_index = paths.len();
                    proof {
                        matched = true;
                    }
                }
            }
            paths.push(e.path.clone());
        }
        proof {
            let pfx1 = entries@.subrange(0, i + 1);
            assert(pfx1.drop_last() =~= entries_pfx);
            assert(pfx1.last() == entries@[i as int]);
            reveal(Seq::filter);
            if pred(entries@[i as int]) {
                assert(pfx1.filter(pred) =~= entries_pfx.filter(pred).push(entries@[i as int]));
                assert(paths@ =~= pfx1.filter(pred).map_values(|e: ScanEntry| e.path));
            } else {
                assert(pfx1.filter(pred) =~= entries_pfx.filter(pred));
                assert(paths@ =~= pfx1.filter(pred).map_values(|e: ScanEntry| e.path));
            }
        }
        i = i + 1;
    }
    proof {
        assert(entries@.subrange(0, n as int) =~= entries@);
        if let Some(sp) = start_path {
            if matched {
                assert(start_index < paths@.len() && paths@[start_index as int]@ == sp@);
            } else {
                assert((exists|k: int|
                    0 <= k < paths@.len() && (#[trigger] paths@[k])@ == sp@) ==> start_index
                    < paths@.len() && paths@[start_index as int]@ == sp@) by {
                    if exists|k: int| 0 <= k < paths@.len() && (#[trigger] paths@[k])@ == sp@ {
                        let k = choose|k: int|
                            0 <= k < paths@.len() && (#[trigger] paths@[k])@ == sp@;
                        assert(paths@[k]@ != sp@);
                    }
                }
            }
        }
    }
    let is_dir = start_path.is_none();
    let r = ScanResult { paths, start_index, is_dir };
    proof {
        if let Some(sp) = start_path {
            if matched {
                assert(0 <= r.start_index < r.paths@.len());
                assert(r.paths@[r.start_index as int]@ == sp@);
            } else {
                assert forall|k: int|
                    0 <= k < r.paths@.len() implies (#[trigger] r.paths@[k])@ != sp@ by {
                    assert(r.paths@[k]@ != sp@);
                }
            }
        }
    }
    r
}

/// The image types the built-in decoder handles, as lower-case extensions.
pub fn default_extensions() -> (out: Vec<String>)
    ensures
        out@.len() == 17,
{
    let mut v: Vec<String> = Vec::new();
    v.push(String::from_str("avif"));
    v.push(String::from_str("bmp"));
    v.push(String::from_str("dds"));
    v.push(String::from_str("exr"));
    v.push(String::from_str("ff"));
    v.push(String::from_str("gif"));
    v.push(String::from_str("hdr"));
    v.push(String::from_str("ico"));
    v.push(String::from_str("jpeg"));
    v.push(String::from_str("jpg"));
    v.push(String::from_str("png"));
    v.push(String::from_str("pnm"));
    v.push(String::from_str("qoi"));
    v.push(String::from_str("tga"));
    v.push(String::from_str("tif"));
    v.push(String::from_str("tiff"));
    v.push(String::from_str("webp"));
    v
}

} // verus!
