//! Which file holds each face of a cubemap channel, and the size rules its
//! faces must meet.
use vstd::prelude::*;
use crate::fspath::{join, path_exists, path_join};
use crate::text::{lit, wrap_msg};

verus! {

/// The image formats a face may be stored in, in the order they are tried.
pub open spec fn face_extensions() -> Seq<Seq<char>> {
    seq!["png"@, "jpg"@, "jpeg"@, "bmp"@]
}

/// The files a face named `stem` may be in: `<dir>/<stem>.<ext>` for each
/// extension, in the order they are tried.
pub open spec fn face_candidates_spec(dir: Seq<char>, stem: Seq<char>) -> Seq<Seq<char>> {
    face_extensions().map_values(|e: Seq<char>| join(dir, stem + "."@ + e))
}

/// See `face_candidates_spec`.
pub fn face_candidates(dir: &str, stem: &str) -> (r: Vec<String>)
    ensures
        r@.map_values(|s: String| s@) == face_candidates_spec(dir@, stem@),
{
    let mut r: Vec<String> = Vec::new();
    r.push(path_join(dir, wrap_msg(stem, ".", "png").as_str()));
    r.push(path_join(dir, wrap_msg(stem, ".", "jpg").as_str()));
    r.push(path_join(dir, wrap_msg(stem, ".", "jpeg").as_str()));
    r.push(path_join(dir, wrap_msg(stem, ".", "bmp").as_str()));
    proof {
        assert(r@.map_values(|s: String| s@) =~= face_candidates_spec(dir@, stem@));
    }
    r
}

/// The file of a face given, for each candidate in order, whether it
/// exists (answers missing at the end count as no): the first that does,
/// none when none does.
pub open spec fn face_given_spec(candidates: Seq<Seq<char>>, present: Seq<bool>) -> Option<Seq<char>> {
    if exists|i: int| 0 <= i < candidates.len() && i < present.len() && present[i] {
        let i = choose|i: int|
            0 <= i < candidates.len() && i < present.len() && present[i] && forall|j: int|
                0 <= j < i ==> !(j < present.len() && present[j]);
        Some(candidates[i])
    } else {
        None
    }
}

/// See `face_given_spec`.
pub fn face_given(dir: &str, stem: &str, present: &[bool]) -> (r: Option<String>)
    ensures
        match r {
            Some(p) => face_given_spec(face_candidates_spec(dir@, stem@), present@) == Some(p@),
            None => face_given_spec(face_candidates_spec(dir@, stem@), present@) is None,
        },
{
    let candidates = face_candidates(dir, stem);
    let ghost cs = face_candidates_spec(dir@, stem@);
    let mut i: usize = 0;
    while i < candidates.len()
        invariant
            i <= candidates@.len(),
            candidates@.len() == cs.len(),
            cs == face_candidates_spec(dir@, stem@),
            candidates@.map_values(|s: String| s@) == cs,
            forall|j: int| 0 <= j < i ==> !(j < present@.len() && present@[j]),
        decreases candidates@.len() - i,
    {
        if i < present.len() && present[i] {
            proof {
                let k = choose|k: int|
                    0 <= k < cs.len() && k < present@.len() && present@[k] && forall|j: int|
                        0 <= j < k ==> !(j < present@.len() && present@[j]);
                assert(!(k < i));
                assert(!(i < k));
                assert(candidates@.map_values(|s: String| s@)[i as int] == candidates@[i as int]@);
                assert(0 <= i < cs.len() && i < present@.len() && present@[i as int]);
                assert(face_given_spec(cs, present@) == Some(cs[k]));
                assert(face_given_spec(cs, present@) == Some(candidates@[i as int]@));
            }
            let res = lit(candidates[i].as_str());
            proof {
                assert(res@ == candidates@[i as int]@);
            }
            return Some(res);
        }
        i += 1;
    }
    None
}

/// The file of the face named `stem` in `dir`: the first candidate that
/// exists on disk (see `face_given_spec`).
pub fn find_face_file(dir: &str, stem: &str) -> (r: Option<String>)
    ensures
        exists|present: Seq<bool>| #[trigger]
            face_given_spec(face_candidates_spec(dir@, stem@), present) == match r {
                Some(p) => Some(p@),
                None => None,
            },
{
    let candidates = face_candidates(dir, stem);
    let mut present: Vec<bool> = Vec::new();
    let mut i: usize = 0;
    while i < candidates.len()
        invariant
            i <= candidates@.len(),
        decreases candidates@.len() - i,
    {
        present.push(path_exists(candidates[i].as_str()));
        i += 1;
    }
    let r = face_given(dir, stem, present.as_slice());
    proof {
        assert(face_given_spec(face_candidates_spec(dir@, stem@), present@) == match r {
            Some(p) => Some(p@),
            None => None::<Seq<char>>,
        });
    }
    r
}

/// Why the faces of a cubemap cannot make one texture.
#[derive(Debug, Clone, Copy, PartialEq, Eq)]
pub enum FaceExtentIssue {
    /// The first face has no pixels.
    ZeroExtent { width: u32, height: u32 },
    /// The first face is not square.
    NotSquare { width: u32, height: u32 },
    /// Face `face` is not the size of the first.
    Mismatched { face: usize, width: u32, height: u32 },
}

/// The size of a cubemap from the sizes of its faces: the first face must
/// have pixels and be square, and every other face must have its size.
pub open spec fn cube_extent_spec(faces: Seq<(u32, u32)>) -> Result<u32, FaceExtentIssue> {
    let (w, h) = faces[0];
    if w == 0 || h == 0 {
        Err(FaceExtentIssue::ZeroExtent { width: w, height: h })
    } else if w != h {
        Err(FaceExtentIssue::NotSquare { width: w, height: h })
    } else if exists|i: int| 1 <= i < faces.len() && #[trigger] faces[i] != faces[0] {
        let i = choose|i: int| 1 <= i < faces.len() && #[trigger] faces[i] != faces[0] && forall|j: int| 1 <= j < i ==> #[trigger] faces[j] == faces[0];
        Err(FaceExtentIssue::Mismatched { face: i as usize, width: faces[i].0, height: faces[i].1 })
    } else {
        Ok(w)
    }
}

/// See `cube_extent_spec`.
pub fn cube_extent(faces: &[(u32, u32)]) -> (r: Result<u32, FaceExtentIssue>)
    requires
        faces@.len() >= 1,
    ensures
        r == cube_extent_spec(faces@),
{
    let (w, h) = faces[0];
    if w == 0 || h == 0 {
        return Err(FaceExtentIssue::ZeroExtent { width: w, height: h });
    }
    if w != h {
        return Err(FaceExtentIssue::NotSquare { width: w, height: h });
    }
    let mut i: usize = 1;
    while i < faces.len()
        invariant
            1 <= i <= faces@.len(),
            faces@[0] == (w, h),
            w != 0,
            w == h,
            forall|j: int| 1 <= j < i ==> #[trigger] faces@[j] == faces@[0],
        decreases faces@.len() - i,
    {
        let (fw, fh) = faces[i];
        if fw != w || fh != h {
            proof {
                let k = choose|k: int|
                    1 <= k < faces@.len() && #[trigger] faces@[k] != faces@[0] && forall|j: int| 1 <= j < k ==> #[trigger] faces@[j] == faces@[0];
                assert(faces@[i as int] != faces@[0]);
                assert(!(k < i));
                assert(!(i < k));
                assert(k == i as int);
                assert(faces@[k].0 == fw && faces@[k].1 == fh);
                assert(faces@[0].0 == w && faces@[0].1 == h);
                assert(exists|q: int| 1 <= q < faces@.len() && #[trigger] faces@[q] != faces@[0]);
                assert(faces@[0].0 != 0 && faces@[0].1 != 0 && faces@[0].0 == faces@[0].1);
                assert(cube_extent_spec(faces@) == Err::<u32, FaceExtentIssue>(
                    FaceExtentIssue::Mismatched { face: k as usize, width: faces@[k].0, height: faces@[k].1 },
                ));
            }
            return Err(FaceExtentIssue::Mismatched { face: i, width: fw, height: fh });
        }
        i += 1;
    }
    Ok(w)
}

} // verus!
