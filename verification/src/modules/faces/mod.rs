//! Clock faces: which face is drawn, its configuration, and where its
//! artwork is found.

pub mod config;
pub mod svg;
pub mod hand;

use vstd::prelude::*;
use crate::text::{chars_of, range_lower_eq_str, to_lower};

verus! {

/// A clock face design.
#[derive(Clone, Copy, Debug, PartialEq, Eq, Hash, Structural)]
pub enum FaceId {
    RetroRoman,
}

/// The face a configured name picks, matched without regard to ASCII case.
pub open spec fn face_named(name: Seq<char>) -> Option<FaceId> {
    let l = to_lower(name);
    if l == "retro-roman"@ || l == "retro_roman"@ || l == "default"@ {
        Some(FaceId::RetroRoman)
    } else {
        None
    }
}

/// The name of a face.
pub open spec fn face_name(f: FaceId) -> Seq<char> {
    match f {
        FaceId::RetroRoman => "retro-roman"@,
    }
}

impl FaceId {
    /// The face used when none is configured.
    pub fn default() -> (r: Self)
        ensures
            r == FaceId::RetroRoman,
    {
        FaceId::RetroRoman
    }

    /// The face `v[lo..hi]` names.
    pub fn parse_range(v: &Vec<char>, lo: usize, hi: usize) -> (r: Option<Self>)
        requires
            lo <= hi <= v@.len(),
        ensures
            r == face_named(v@.subrange(lo as int, hi as int)),
    {
        if range_lower_eq_str(v, lo, hi, "retro-roman") || range_lower_eq_str(v, lo, hi, "retro_roman")
            || range_lower_eq_str(v, lo, hi, "default") {
            Some(FaceId::RetroRoman)
        } else {
            None
        }
    }

    /// The face a name picks: `retro-roman`, `retro_roman` or `default`, in
    /// any ASCII case.
    pub fn parse(name: &str) -> (r: Option<Self>)
        ensures
            r == face_named(name@),
    {
        let v = chars_of(name);
        assert(v@.subrange(0, v@.len() as int) =~= v@);
        FaceId::parse_range(&v, 0, v.len())
    }

    /// The face's name.
    pub fn as_str(self) -> (r: &'static str)
        ensures
            r@ == face_name(self),
    {
        match self {
            FaceId::RetroRoman => "retro-roman",
        }
    }

    /// The face's artwork, relative to the faces directory.
    pub fn asset_path(self) -> (r: &'static str)
        ensures
            r@ == "retro-roman/face.svg"@,
    {
        match self {
            FaceId::RetroRoman => "retro-roman/face.svg",
        }
    }
}

/// Law: the name of a face picks that face back.
pub proof fn lemma_face_name_round_trip(f: FaceId)
    ensures
        face_named(face_name(f)) == Some(f),
{
    reveal_strlit("retro-roman");
    assert(to_lower(face_name(f)) =~= face_name(f));
}

} // verus!
