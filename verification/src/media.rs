use vstd::prelude::*;
use crate::config::{MediaFile, MediaType};
use crate::text::{digit_val, is_digit, lower_char, three_digit_seq};
use crate::text::{char_digit_val, char_is_digit, format_dmx_value, str_chars};

verus! {

/// The video extension, lowercase.
pub open spec fn ext_mp4() -> Seq<char> {
    seq!['m', 'p', '4']
}

/// The first image extension, lowercase.
pub open spec fn ext_jpg() -> Seq<char> {
    seq!['j', 'p', 'g']
}

/// The long form of the first image extension, lowercase.
pub open spec fn ext_jpeg() -> Seq<char> {
    seq!['j', 'p', 'e', 'g']
}

/// The second image extension, lowercase.
pub open spec fn ext_png() -> Seq<char> {
    seq!['p', 'n', 'g']
}

/// Character-wise ASCII-case-insensitive equality of two character sequences.
pub open spec fn eq_ignore_ascii_case(a: Seq<char>, b: Seq<char>) -> bool {
    a.len() == b.len() && forall|i: int|
        0 <= i < a.len() ==> lower_char(#[trigger] a[i]) == lower_char(b[i])
}

/// Classification of a filename extension: `mp4` is video; `jpg`, `jpeg`
/// and `png` are images; anything else is not media. Case-insensitive.
pub open spec fn spec_media_type_of_ext(ext: Seq<char>) -> Option<MediaType> {
    if eq_ignore_ascii_case(ext, ext_mp4()) {
        Some(MediaType::Video)
    } else if eq_ignore_ascii_case(ext, ext_jpg()) || eq_ignore_ascii_case(ext, ext_jpeg())
        || eq_ignore_ascii_case(ext, ext_png()) {
        Some(MediaType::Image)
    } else {
        None
    }
}

/// Index of the last `'.'` in a name, or -1 when the name has none.
pub open spec fn spec_last_dot(name: Seq<char>) -> int
    decreases name.len(),
{
    if name.len() == 0 {
        -1
    } else if name.last() == '.' {
        name.len() - 1
    } else {
        spec_last_dot(name.drop_last())
    }
}

/// The lexical shape a media filename must begin with: at least five
/// characters, three ASCII digits, then an underscore.
pub open spec fn spec_name_shape_ok(name: Seq<char>) -> bool {
    name.len() >= 5 && is_digit(name[0]) && is_digit(name[1]) && is_digit(name[2])
        && name[3] == '_'
}

/// The decimal value of the three-digit prefix of a shaped name.
pub open spec fn spec_prefix_value(name: Seq<char>) -> int {
    100 * digit_val(name[0]) + 10 * digit_val(name[1]) + digit_val(name[2])
}

/// Full classification of a filename under the `NNN_stem.ext` convention:
/// the DMX value its three-digit prefix parses to, and the media type its
/// extension maps to. `None` when the prefix is not three digits and an
/// underscore, when the value is zero (zero means "no clip") or above 255,
/// or when the extension is missing or unsupported.
#[verifier::opaque]
pub open spec fn spec_parse_media(name: Seq<char>) -> Option<(int, MediaType)> {
    if !spec_name_shape_ok(name) {
        None
    } else if spec_prefix_value(name) == 0 || spec_prefix_value(name) > 255 {
        None
    } else if spec_last_dot(name) < 0 {
        None
    } else {
        match spec_media_type_of_ext(
            name.subrange(spec_last_dot(name) + 1, name.len() as int),
        ) {
            Some(t) => Some((spec_prefix_value(name), t)),
            None => None,
        }
    }
}

/// Finds the index of the last `'.'` of a name, if any.
fn find_last_dot(chars: &Vec<char>) -> (r: Option<usize>)
    ensures
        r is Some ==> spec_last_dot(chars@) == r->0 as int && r->0 < chars@.len(),
        r is None ==> spec_last_dot(chars@) < 0,
{
    let mut i: usize = chars.len();
    proof {
        assert(chars@.take(chars@.len() as int) =~= chars@);
    }
    while i > 0
        invariant
            i <= chars@.len(),
            spec_last_dot(chars@) == spec_last_dot(chars@.take(i as int)),
        decreases i,
    {
        i = i - 1;
        proof {
            assert(chars@.take(i + 1).drop_last() =~= chars@.take(i as int));
            assert(chars@.take(i + 1).last() == chars@[i as int]);
        }
        if chars[i] == '.' {
            return Some(i);
        }
    }
    proof {
        assert(chars@.take(0) =~= Seq::<char>::empty());
    }
    None
}

/// Maps an extension to its media type, ignoring ASCII case.
fn ext_media_type(ext: &Vec<char>) -> (r: Option<MediaType>)
    ensures
        r == spec_media_type_of_ext(ext@),
{
    if ext.len() == 3 {
        let a = ext[0];
        let b = ext[1];
        let c = ext[2];
        let is_mp4 = (a == 'm' || a == 'M') && (b == 'p' || b == 'P') && c == '4';
        let is_jpg = (a == 'j' || a == 'J') && (b == 'p' || b == 'P') && (c == 'g' || c == 'G');
        let is_png = (a == 'p' || a == 'P') && (b == 'n' || b == 'N') && (c == 'g' || c == 'G');
        if is_mp4 {
            Some(MediaType::Video)
        } else if is_jpg || is_png {
            Some(MediaType::Image)
        } else {
            None
        }
    } else if ext.len() == 4 {
        let a = ext[0];
        let b = ext[1];
        let c = ext[2];
        let d = ext[3];
        let is_jpeg = (a == 'j' || a == 'J') && (b == 'p' || b == 'P') && (c == 'e' || c == 'E')
            && (d == 'g' || d == 'G');
        if is_jpeg {
            Some(MediaType::Image)
        } else {
            None
        }
    } else {
        None
    }
}

/// Parses a filename under the `NNN_stem.ext` convention into a media file
/// record. The caller passes the bare filename; `path` is set to the same
/// name, and a caller that knows the folder joins the two itself.
pub fn parse_media_filename(filename: &str) -> (r: Option<MediaFile>)
    ensures
        r is Some <==> spec_parse_media(filename@) is Some,
        r is Some ==> (spec_parse_media(filename@) == Some(
            ((r->0.dmx_value as int), r->0.media_type),
        )),
        r is Some ==> r->0.filename@ == filename@ && r->0.path@ == filename@
            && 1 <= r->0.dmx_value,
{
    proof {
        reveal(spec_parse_media);
    }
    let chars = str_chars(filename);
    if chars.len() < 5 {
        return None;
    }
    if !(char_is_digit(chars[0]) && char_is_digit(chars[1]) && char_is_digit(chars[2])) {
        return None;
    }
    if chars[3] != '_' {
        return None;
    }
    let d0 = char_digit_val(chars[0]);
    let d1 = char_digit_val(chars[1]);
    let d2 = char_digit_val(chars[2]);
    let value: u16 = 100 * (d0 as u16) + 10 * (d1 as u16) + (d2 as u16);
    if value == 0 || value > 255 {
        return None;
    }
    let last_dot = match find_last_dot(&chars) {
        Some(i) => i,
        None => {
            return None;
        },
    };
    let mut ext: Vec<char> = Vec::new();
    let mut i: usize = last_dot + 1;
    proof {
        assert(ext@ =~= chars@.subrange(last_dot + 1, i as int));
    }
    while i < chars.len()
        invariant
            last_dot < i <= chars@.len(),
            ext@ == chars@.subrange(last_dot + 1, i as int),
        decreases chars@.len() - i,
    {
        ext.push(chars[i]);
        proof {
            assert(chars@.subrange(last_dot + 1, i + 1) =~= chars@.subrange(
                last_dot + 1,
                i as int,
            ).push(chars@[i as int]));
        }
        i = i + 1;
    }
    let media_type = match ext_media_type(&ext) {
        Some(t) => t,
        None => {
            return None;
        },
    };
    Some(
        MediaFile {
            dmx_value: value as u8,
            filename: filename.to_owned(),
            path: filename.to_owned(),
            media_type,
        },
    )
}

/// Whether some file in the folder listing has exactly the target name.
pub open spec fn spec_contains_name(files: Seq<Seq<char>>, target: Seq<char>) -> bool {
    exists|i: int| 0 <= i < files.len() && files[i] == target
}

/// The direct-lookup filename for a DMX value and an extension:
/// the zero-padded three-digit value, a dot, and the extension.
pub open spec fn spec_candidate(v: int, ext: Seq<char>) -> Seq<char> {
    three_digit_seq(v) + seq!['.'] + ext
}

/// The resolved filename for a DMX value against a folder listing: the
/// extensions are probed in the fixed priority order `mp4`, `jpg`, `png`,
/// and the first present candidate wins; when none is present the `mp4`
/// candidate is returned regardless, as a best guess the presentation
/// layer can report as missing.
pub open spec fn spec_resolve(files: Seq<Seq<char>>, v: int) -> Seq<char> {
    if spec_contains_name(files, spec_candidate(v, ext_mp4())) {
        spec_candidate(v, ext_mp4())
    } else if spec_contains_name(files, spec_candidate(v, ext_jpg())) {
        spec_candidate(v, ext_jpg())
    } else if spec_contains_name(files, spec_candidate(v, ext_png())) {
        spec_candidate(v, ext_png())
    } else {
        spec_candidate(v, ext_mp4())
    }
}

/// Whether the folder listing contains exactly the given name.
fn contains_name(files: &Vec<String>, target: &String) -> (r: bool)
    ensures
        r == spec_contains_name(files.deep_view(), target@),
{
    let mut i: usize = 0;
    while i < files.len()
        invariant
            i <= files@.len(),
            !(exists|j: int| 0 <= j < i && files.deep_view()[j] == target@),
        decreases files@.len() - i,
    {
        if files[i] == *target {
            assert(files.deep_view()[i as int] == target@);
            return true;
        }
        i = i + 1;
    }
    false
}

/// Builds the candidate filename for a DMX value and an extension string.
fn candidate_name(dmx_value: u8, ext: &str) -> (r: String)
    ensures
        r@ == three_digit_seq(dmx_value as int) + seq!['.'] + ext@,
{
    let mut s = format_dmx_value(dmx_value);
    s.append(".");
    proof {
        reveal_strlit(".");
        assert(s@ =~= three_digit_seq(dmx_value as int) + seq!['.']);
    }
    s.append(ext);
    s
}

/// Resolves a DMX value to a filename against a folder listing, probing
/// `mp4`, then `jpg`, then `png`, and falling back to the `mp4` name.
pub fn resolve_media(files: &Vec<String>, dmx_value: u8) -> (r: String)
    requires
        dmx_value >= 1,
    ensures
        r@ == spec_resolve(files.deep_view(), dmx_value as int),
{
    proof {
        reveal_strlit("mp4");
        reveal_strlit("jpg");
        reveal_strlit("png");
        assert("mp4"@ =~= ext_mp4());
        assert("jpg"@ =~= ext_jpg());
        assert("png"@ =~= ext_png());
    }
    let mp4 = candidate_name(dmx_value, "mp4");
    if contains_name(files, &mp4) {
        return mp4;
    }
    let jpg = candidate_name(dmx_value, "jpg");
    if contains_name(files, &jpg) {
        return jpg;
    }
    let png = candidate_name(dmx_value, "png");
    if contains_name(files, &png) {
        return png;
    }
    mp4
}

/// The classification of the last listed name that parses to DMX value `v`:
/// when a folder holds several files with the same three-digit prefix, the
/// one listed last wins (enumeration order is filesystem-dependent, a known
/// non-determinism of the scan).
pub open spec fn spec_scan_lookup(names: Seq<Seq<char>>, v: int) -> Option<Seq<char>>
    decreases names.len(),
{
    if names.len() == 0 {
        None
    } else if spec_parse_media(names.last()) is Some && (spec_parse_media(names.last())->0).0
        == v {
        Some(names.last())
    } else {
        spec_scan_lookup(names.drop_last(), v)
    }
}

/// Finds the entry already carrying a DMX value, if any.
fn find_by_dmx(r: &Vec<MediaFile>, v: u8) -> (idx: Option<usize>)
    ensures
        idx is Some ==> idx->0 < r@.len() && r@[idx->0 as int].dmx_value == v,
        idx is None ==> forall|i: int| 0 <= i < r@.len() ==> (#[trigger] r@[i]).dmx_value != v,
{
    let mut i: usize = 0;
    while i < r.len()
        invariant
            i <= r@.len(),
            forall|j: int| 0 <= j < i ==> (#[trigger] r@[j]).dmx_value != v,
        decreases r@.len() - i,
    {
        if r[i].dmx_value == v {
            return Some(i);
        }
        i = i + 1;
    }
    None
}

/// Classifies a folder listing into media file records, one per DMX value.
///
/// A name qualifies only under the `NNN_stem.ext` convention (see
/// [`spec_parse_media`]); non-conforming names are silently skipped. The
/// result holds at most one entry per DMX value, the last conforming name
/// in listing order winning.
#[verifier::rlimit(100)]
pub fn scan_media_folder(names: &Vec<String>) -> (r: Vec<MediaFile>)
    ensures
        forall|i: int|
            0 <= i < r@.len() ==> (#[trigger] r@[i]).path@ == r@[i].filename@
                && spec_scan_lookup(names.deep_view(), r@[i].dmx_value as int) == Some(
                r@[i].filename@,
            ) && spec_parse_media(r@[i].filename@) == Some(
                ((r@[i].dmx_value as int), r@[i].media_type),
            ),
        forall|v: int|
            #[trigger] spec_scan_lookup(names.deep_view(), v) is Some ==> exists|i: int|
                0 <= i < r@.len() && (#[trigger] r@[i].dmx_value) as int == v,
        forall|i: int, j: int|
            0 <= i < j < r@.len() ==> r@[i].dmx_value != r@[j].dmx_value,
{
    let ghost nv = names.deep_view();
    let mut r: Vec<MediaFile> = Vec::new();
    let mut k: usize = 0;
    proof {
        assert(nv.take(0) =~= Seq::<Seq<char>>::empty());
    }
    while k < names.len()
        invariant
            k <= names@.len(),
            nv == names.deep_view(),
            forall|i: int|
                0 <= i < r@.len() ==> (#[trigger] r@[i]).path@ == r@[i].filename@
                    && spec_scan_lookup(nv.take(k as int), r@[i].dmx_value as int) == Some(
                    r@[i].filename@,
                ) && spec_parse_media(r@[i].filename@) == Some(
                    ((r@[i].dmx_value as int), r@[i].media_type),
                ),
            forall|v: int|
                #[trigger] spec_scan_lookup(nv.take(k as int), v) is Some ==> exists|i: int|
                    0 <= i < r@.len() && (#[trigger] r@[i].dmx_value) as int == v,
            forall|i: int, j: int|
                0 <= i < j < r@.len() ==> r@[i].dmx_value != r@[j].dmx_value,
        decreases names@.len() - k,
    {
        let ghost prelook = nv.take(k as int);
        let ghost postlook = nv.take(k + 1);
        proof {
            assert(postlook.drop_last() =~= prelook);
            assert(postlook.last() == nv[k as int]);
            assert(nv[k as int] == names@[k as int]@);
        }
        match parse_media_filename(names[k].as_str()) {
            Some(mf) => {
                let ghost val = mf.dmx_value as int;
                let ghost mfile = mf;
                proof {
                    assert(spec_parse_media(postlook.last()) == Some((val, mfile.media_type)));
                    assert(spec_scan_lookup(postlook, val) == Some(nv[k as int]));
                    assert(forall|v: int|
                        v != val ==> #[trigger] spec_scan_lookup(postlook, v)
                            == spec_scan_lookup(prelook, v));
                }
                let ghost pre = r@;
                match find_by_dmx(&r, mf.dmx_value) {
                    Some(idx) => {
                        r.set(idx, mf);
                        proof {
                            assert(r@[idx as int] == mfile);
                            assert forall|v: int|
                                #[trigger] spec_scan_lookup(postlook, v) is Some
                                implies exists|i: int|
                                0 <= i < r@.len() && (#[trigger] r@[i].dmx_value) as int
                                    == v by {
                                if v == val {
                                    assert(r@[idx as int].dmx_value as int == v);
                                } else {
                                    assert(spec_scan_lookup(prelook, v) is Some);
                                    let w = choose|i: int|
                                        0 <= i < pre.len() && (#[trigger] pre[i].dmx_value)
                                            as int == v;
                                    assert(w != idx as int);
                                    assert(r@[w].dmx_value as int == v);
                                }
                            }
                            assert forall|i: int| 0 <= i < r@.len() implies (#[trigger] r@[i]).path@
                                == r@[i].filename@ && spec_scan_lookup(
                                postlook,
                                r@[i].dmx_value as int,
                            ) == Some(r@[i].filename@) && spec_parse_media(r@[i].filename@)
                                == Some(((r@[i].dmx_value as int), r@[i].media_type)) by {
                                if i == idx as int {
                                    assert(r@[i] == mfile);
                                    assert(spec_scan_lookup(postlook, val) == Some(
                                        mfile.filename@,
                                    ));
                                } else {
                                    assert(r@[i] == pre[i]);
                                    assert(pre[idx as int].dmx_value as int == val);
                                    assert(r@[i].dmx_value as int != val);
                                }
                            }
                        }
                    },
                    None => {
                        r.push(mf);
                        proof {
                            assert(r@ == pre.push(mfile));
                            assert(r@[r@.len() - 1] == mfile);
                            assert forall|v: int|
                                #[trigger] spec_scan_lookup(postlook, v) is Some
                                implies exists|i: int|
                                0 <= i < r@.len() && (#[trigger] r@[i].dmx_value) as int
                                    == v by {
                                if v == val {
                                    assert(r@[r@.len() - 1].dmx_value as int == v);
                                } else {
                                    assert(spec_scan_lookup(prelook, v) is Some);
                                    let w = choose|i: int|
                                        0 <= i < pre.len() && (#[trigger] pre[i].dmx_value)
                                            as int == v;
                                    assert(r@[w].dmx_value as int == v);
                                }
                            }
                            assert forall|i: int| 0 <= i < r@.len() implies (#[trigger] r@[i]).path@
                                == r@[i].filename@ && spec_scan_lookup(
                                postlook,
                                r@[i].dmx_value as int,
                            ) == Some(r@[i].filename@) && spec_parse_media(r@[i].filename@)
                                == Some(((r@[i].dmx_value as int), r@[i].media_type)) by {
                                if i == r@.len() - 1 {
                                    assert(r@[i] == mfile);
                                    assert(spec_scan_lookup(postlook, val) == Some(
                                        mfile.filename@,
                                    ));
                                } else {
                                    assert(r@[i] == pre[i]);
                                    assert(pre[i].dmx_value != mfile.dmx_value);
                                    assert(r@[i].dmx_value as int != val);
                                }
                            }
                        }
                    },
                }
            },
            None => {
                proof {
                    assert(spec_parse_media(postlook.last()) is None);
                    assert(forall|v: int|
                        #[trigger] spec_scan_lookup(postlook, v) == spec_scan_lookup(
                            prelook,
                            v,
                        ));
                }
            },
        }
        k = k + 1;
    }
    proof {
        assert(nv.take(names@.len() as int) =~= nv);
    }
    r
}

/// Keeps exactly the listed names that begin with three ASCII digits and an
/// underscore, in listing order.
pub fn filter_media_filenames(names: &Vec<String>) -> (r: Vec<String>)
    ensures
        r.deep_view() == names.deep_view().filter(|n: Seq<char>| spec_name_shape_ok(n)),
{
    let ghost nv = names.deep_view();
    let ghost pred = (|n: Seq<char>| spec_name_shape_ok(n));
    let mut r: Vec<String> = Vec::new();
    let mut k: usize = 0;
    proof {
        reveal(Seq::filter);
        assert(nv.take(0) =~= Seq::<Seq<char>>::empty());
        assert(r.deep_view() =~= nv.take(0).filter(pred));
    }
    while k < names.len()
        invariant
            k <= names@.len(),
            nv == names.deep_view(),
            r.deep_view() == nv.take(k as int).filter(pred),
            pred == (|n: Seq<char>| spec_name_shape_ok(n)),
        decreases names@.len() - k,
    {
        let ghost pre = r.deep_view();
        if name_shape_ok(&names[k]) {
            r.push(names[k].clone());
        }
        proof {
            reveal(Seq::filter);
            assert(nv.take(k + 1).drop_last() =~= nv.take(k as int));
            assert(nv.take(k + 1).last() == nv[k as int]);
            assert(nv[k as int] == names@[k as int]@);
            if pred(nv[k as int]) {
                assert(r.deep_view() =~= pre.push(names@[k as int]@));
            } else {
                assert(r.deep_view() =~= pre);
            }
        }
        k = k + 1;
    }
    proof {
        assert(nv.take(names@.len() as int) =~= nv);
    }
    r
}

/// Whether a filename begins with three ASCII digits and an underscore.
fn name_shape_ok(name: &String) -> (r: bool)
    ensures
        r == spec_name_shape_ok(name@),
{
    let chars = str_chars(name.as_str());
    if chars.len() < 5 {
        return false;
    }
    char_is_digit(chars[0]) && char_is_digit(chars[1]) && char_is_digit(chars[2]) && chars[3]
        == '_'
}

} // verus!
