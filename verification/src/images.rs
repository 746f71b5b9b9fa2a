//! Background image selection: filtering a directory listing down to image
//! files under the asset folder, and picking a random image while avoiding
//! the one shown last. Paths are byte strings; the extension test is
//! case-insensitive over ASCII, as paths are lowercased before comparison.

use vstd::prelude::*;
use crate::rng::rand_index;

verus! {

/// ASCII lowercasing of one byte.
pub open spec fn spec_ascii_lower(b: u8) -> u8 {
    if 65 <= b <= 90 {
        (b + 32) as u8
    } else {
        b
    }
}

/// Whether `s` ends with `suffix`, comparing bytes ASCII-case-insensitively.
pub open spec fn ends_with_ci(s: Seq<u8>, suffix: Seq<u8>) -> bool {
    s.len() >= suffix.len() && forall|i: int|
        0 <= i < suffix.len() ==> spec_ascii_lower(s[s.len() - suffix.len() + i])
            == spec_ascii_lower(#[trigger] suffix[i])
}

/// Whether `s` starts with `prefix`.
pub open spec fn starts_with(s: Seq<u8>, prefix: Seq<u8>) -> bool {
    s.len() >= prefix.len() && forall|i: int| 0 <= i < prefix.len() ==> #[trigger] s[i]
        == prefix[i]
}

/// The bytes of `.png`.
pub open spec fn spec_png_suffix() -> Seq<u8> {
    seq![46u8, 112u8, 110u8, 103u8]
}

/// The bytes of `.jpg`.
pub open spec fn spec_jpg_suffix() -> Seq<u8> {
    seq![46u8, 106u8, 112u8, 103u8]
}

/// The bytes of `.jpeg`.
pub open spec fn spec_jpeg_suffix() -> Seq<u8> {
    seq![46u8, 106u8, 112u8, 101u8, 103u8]
}

/// The bytes of `assets/`, the folder that asset paths are made relative to.
pub open spec fn spec_assets_prefix() -> Seq<u8> {
    seq![97u8, 115u8, 115u8, 101u8, 116u8, 115u8, 47u8]
}

/// The bytes of `images/placeholder.png`, the fallback when no image file is
/// found.
pub open spec fn spec_fallback_image() -> Seq<u8> {
    seq![
        105u8,
        109u8,
        97u8,
        103u8,
        101u8,
        115u8,
        47u8,
        112u8,
        108u8,
        97u8,
        99u8,
        101u8,
        104u8,
        111u8,
        108u8,
        100u8,
        101u8,
        114u8,
        46u8,
        112u8,
        110u8,
        103u8,
    ]
}

/// Whether the path names an image file: it ends in `.png`, `.jpg` or
/// `.jpeg`, in any letter case.
pub open spec fn is_image_path(s: Seq<u8>) -> bool {
    ||| ends_with_ci(s, spec_png_suffix())
    ||| ends_with_ci(s, spec_jpg_suffix())
    ||| ends_with_ci(s, spec_jpeg_suffix())
}

/// Whether the path is an image file under the asset folder.
pub open spec fn eligible_asset(s: Seq<u8>) -> bool {
    is_image_path(s) && starts_with(s, spec_assets_prefix())
}

/// The path made relative to the asset folder.
pub open spec fn stripped_asset(s: Seq<u8>) -> Seq<u8> {
    s.subrange(spec_assets_prefix().len() as int, s.len() as int)
}

/// ASCII-lowercases one byte.
fn lower_byte(b: u8) -> (r: u8)
    ensures
        r == spec_ascii_lower(b),
{
    if b >= 65 && b <= 90 {
        b + 32
    } else {
        b
    }
}

/// Whether `s` ends with `suffix`, ASCII-case-insensitively.
fn ends_with_ci_vec(s: &Vec<u8>, suffix: &Vec<u8>) -> (r: bool)
    ensures
        r == ends_with_ci(s@, suffix@),
{
    if s.len() < suffix.len() {
        return false;
    }
    let off = s.len() - suffix.len();
    let mut i: usize = 0;
    while i < suffix.len()
        invariant
            s@.len() >= suffix@.len(),
            off == s@.len() - suffix@.len(),
            i <= suffix@.len(),
            forall|j: int|
                0 <= j < i ==> spec_ascii_lower(s@[off + j]) == spec_ascii_lower(
                    #[trigger] suffix@[j],
                ),
        decreases suffix@.len() - i,
    {
        let total = s.len();
        proof {
            assert(off + i < total);
        }
        if lower_byte(s[off + i]) != lower_byte(suffix[i]) {
            return false;
        }
        i = i + 1;
    }
    true
}

/// Whether the path names an image file by its extension.
pub fn has_image_extension(p: &Vec<u8>) -> (r: bool)
    ensures
        r == is_image_path(p@),
{
    let png: Vec<u8> = vec![46u8, 112u8, 110u8, 103u8];
    let jpg: Vec<u8> = vec![46u8, 106u8, 112u8, 103u8];
    let jpeg: Vec<u8> = vec![46u8, 106u8, 112u8, 101u8, 103u8];
    proof {
        assert(png@ =~= spec_png_suffix());
        assert(jpg@ =~= spec_jpg_suffix());
        assert(jpeg@ =~= spec_jpeg_suffix());
    }
    ends_with_ci_vec(p, &png) || ends_with_ci_vec(p, &jpg) || ends_with_ci_vec(p, &jpeg)
}

/// Copies a byte string.
pub fn copy_bytes(v: &Vec<u8>) -> (r: Vec<u8>)
    ensures
        r@ == v@,
{
    let mut r: Vec<u8> = Vec::new();
    let mut i: usize = 0;
    while i < v.len()
        invariant
            i <= v@.len(),
            r@ =~= v@.take(i as int),
        decreases v@.len() - i,
    {
        r.push(v[i]);
        proof {
            assert(r@ =~= v@.take(i + 1));
        }
        i = i + 1;
    }
    proof {
        assert(v@.take(v@.len() as int) =~= v@);
    }
    r
}

/// Whether two byte strings hold the same bytes.
pub fn bytes_equal(a: &Vec<u8>, b: &Vec<u8>) -> (r: bool)
    ensures
        r == (a@ == b@),
{
    if a.len() != b.len() {
        proof {
            assert(a@.len() != b@.len());
        }
        return false;
    }
    let mut i: usize = 0;
    while i < a.len()
        invariant
            a@.len() == b@.len(),
            i <= a@.len(),
            forall|j: int| 0 <= j < i ==> #[trigger] a@[j] == b@[j],
        decreases a@.len() - i,
    {
        if a[i] != b[i] {
            return false;
        }
        i = i + 1;
    }
    proof {
        assert(a@ =~= b@);
    }
    true
}

/// Strips the asset-folder prefix from a path; `None` when the path does not
/// lie under the asset folder.
pub fn strip_assets_prefix(p: &Vec<u8>) -> (r: Option<Vec<u8>>)
    ensures
        r is Some <==> starts_with(p@, spec_assets_prefix()),
        r matches Some(v) ==> v@ == stripped_asset(p@),
{
    let prefix: Vec<u8> = vec![97u8, 115u8, 115u8, 101u8, 116u8, 115u8, 47u8];
    proof {
        assert(prefix@ =~= spec_assets_prefix());
    }
    if p.len() < prefix.len() {
        return None;
    }
    let mut i: usize = 0;
    while i < prefix.len()
        invariant
            p@.len() >= prefix@.len(),
            prefix@ =~= spec_assets_prefix(),
            i <= prefix@.len(),
            forall|j: int| 0 <= j < i ==> #[trigger] p@[j] == prefix@[j],
        decreases prefix@.len() - i,
    {
        if p[i] != prefix[i] {
            return None;
        }
        i = i + 1;
    }
    let mut rest: Vec<u8> = Vec::new();
    let mut k: usize = prefix.len();
    while k < p.len()
        invariant
            prefix@.len() <= k <= p@.len(),
            prefix@.len() == spec_assets_prefix().len(),
            rest@ =~= p@.subrange(prefix@.len() as int, k as int),
        decreases p@.len() - k,
    {
        rest.push(p[k]);
        proof {
            assert(rest@ =~= p@.subrange(prefix@.len() as int, k + 1));
        }
        k = k + 1;
    }
    proof {
        assert(rest@ =~= stripped_asset(p@));
    }
    Some(rest)
}

/// The byte strings held by a sequence of byte vectors.
pub open spec fn views_of(s: Seq<Vec<u8>>) -> Seq<Seq<u8>> {
    Seq::new(s.len(), |i: int| s[i]@)
}

/// The image files among the first `k` paths of a directory listing, each
/// made relative to the asset folder, in listing order.
pub open spec fn filtered_images(paths: Seq<Vec<u8>>, k: int) -> Seq<Seq<u8>>
    decreases k,
{
    if k <= 0 {
        Seq::empty()
    } else {
        let pre = filtered_images(paths, k - 1);
        if eligible_asset(paths[k - 1]@) {
            pre.push(stripped_asset(paths[k - 1]@))
        } else {
            pre
        }
    }
}

/// Filters a directory listing down to the image files under the asset
/// folder, each made relative to it: the result holds exactly the stripped
/// forms of the eligible paths, in listing order.
pub fn filter_image_files(paths: &Vec<Vec<u8>>) -> (r: Vec<Vec<u8>>)
    ensures
        views_of(r@) == filtered_images(paths@, paths@.len() as int),
{
    let mut r: Vec<Vec<u8>> = Vec::new();
    proof {
        assert(views_of(r@) =~= filtered_images(paths@, 0));
    }
    let mut i: usize = 0;
    while i < paths.len()
        invariant
            i <= paths@.len(),
            views_of(r@) == filtered_images(paths@, i as int),
        decreases paths@.len() - i,
    {
        let p = &paths[i];
        let ghost r0 = r@;
        if has_image_extension(p) {
            match strip_assets_prefix(p) {
                Some(rel) => {
                    let ghost rel_view = rel@;
                    r.push(rel);
                    proof {
                        assert(eligible_asset(paths@[i as int]@));
                        assert(rel_view == stripped_asset(paths@[i as int]@));
                        assert(views_of(r@) =~= views_of(r0).push(rel_view));
                        assert(views_of(r@) == filtered_images(paths@, i + 1));
                    }
                },
                None => {
                    proof {
                        assert(!eligible_asset(paths@[i as int]@));
                        assert(views_of(r@) == filtered_images(paths@, i + 1));
                    }
                },
            }
        } else {
            proof {
                assert(!eligible_asset(paths@[i as int]@));
                assert(views_of(r@) == filtered_images(paths@, i + 1));
            }
        }
        i = i + 1;
    }
    r
}

/// Picks a background image from `files`, avoiding `exclude` when any other
/// file exists; with no file at all, falls back to the placeholder path.
pub fn choose_image(files: &Vec<Vec<u8>>, exclude: Option<&Vec<u8>>) -> (r: Vec<u8>)
    ensures
        files@.len() == 0 ==> r@ == spec_fallback_image(),
        files@.len() > 0 ==> exists|i: int| 0 <= i < files@.len() && r@ == #[trigger] files@[i]@,
        exclude matches Some(e) ==> ((exists|i: int|
            0 <= i < files@.len() && #[trigger] files@[i]@ != e@) ==> r@ != e@),
{
    if files.len() == 0 {
        let fallback: Vec<u8> = vec![
            105u8,
            109u8,
            97u8,
            103u8,
            101u8,
            115u8,
            47u8,
            112u8,
            108u8,
            97u8,
            99u8,
            101u8,
            104u8,
            111u8,
            108u8,
            100u8,
            101u8,
            114u8,
            46u8,
            112u8,
            110u8,
            103u8,
        ];
        proof {
            assert(fallback@ =~= spec_fallback_image());
        }
        return fallback;
    }
    let mut eligible: Vec<Vec<u8>> = Vec::new();
    match exclude {
        Some(e) => {
            let mut i: usize = 0;
            while i < files.len()
                invariant
                    i <= files@.len(),
                    forall|j: int|
                        0 <= j < eligible@.len() ==> exists|ii: int|
                            0 <= ii < files@.len() && #[trigger] eligible@[j]@ == files@[ii]@,
                    forall|j: int| 0 <= j < eligible@.len() ==> #[trigger] eligible@[j]@ != e@,
                    (exists|ii: int| 0 <= ii < i && #[trigger] files@[ii]@ != e@)
                        ==> eligible@.len() > 0,
                decreases files@.len() - i,
            {
                if !bytes_equal(&files[i], e) {
                    eligible.push(copy_bytes(&files[i]));
                    proof {
                        assert(eligible@[eligible@.len() - 1]@ == files@[i as int]@);
                    }
                }
                i = i + 1;
            }
        },
        None => {
            let mut i: usize = 0;
            while i < files.len()
                invariant
                    i <= files@.len(),
                    eligible@.len() == i,
                    forall|j: int| 0 <= j < i ==> #[trigger] eligible@[j]@ == files@[j]@,
                decreases files@.len() - i,
            {
                eligible.push(copy_bytes(&files[i]));
                i = i + 1;
            }
        },
    }
    if eligible.len() == 0 {
        // Everything was excluded: with a single image source the previous
        // image is used again.
        let mut i: usize = 0;
        while i < files.len()
            invariant
                i <= files@.len(),
                eligible@.len() == i,
                forall|j: int| 0 <= j < i ==> #[trigger] eligible@[j]@ == files@[j]@,
            decreases files@.len() - i,
        {
            eligible.push(copy_bytes(&files[i]));
            i = i + 1;
        }
    }
    let idx = rand_index(eligible.len());
    let r = copy_bytes(&eligible[idx]);
    r
}

} // verus!
