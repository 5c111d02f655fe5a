//! Parsing of the command-line inputs that the engine consumes: the export type
//! selector and the text of the voxelization bounds.

use vstd::prelude::*;

use crate::exporter::VoxelExportType;
use crate::text::{
    chars_of, find_char, find_char_exec, split_char, split_chars, string_from_chars, sub_chars,
    trim, trim_chars,
};

verus! {

/// What went wrong with a command-line input.
#[derive(Clone, Copy, PartialEq, Eq, Debug)]
pub enum InputError {
    InvalidExportType,
    InvalidVoxelizationBounds,
}

/// Arguments of the export command.
pub struct ExportArgs {
    pub output_file_path: String,
    pub export_format: String,
}

/// `c` equals the lower-case character `lower`, ignoring ASCII case.
pub open spec fn ascii_eq_ignore_case(c: char, lower: char) -> bool {
    c == lower || ('A' <= c <= 'Z' && (c as u32) + 32 == lower as u32)
}

/// `s` spells the lower-case name `name`, ignoring ASCII case.
pub open spec fn names_match(s: Seq<char>, name: Seq<char>) -> bool {
    s.len() == name.len() && forall|i: int| 0 <= i < s.len() ==> ascii_eq_ignore_case(s[i], name[i])
}

/// The export type that `s` names, ignoring ASCII case.
pub open spec fn export_type_named(s: Seq<char>) -> Option<VoxelExportType> {
    if names_match(s, "binary-edge_u1"@) {
        Some(VoxelExportType::BinaryEdgeStateU1)
    } else if names_match(s, "binary-fill_u1"@) {
        Some(VoxelExportType::BinaryFillStateU1)
    } else if names_match(s, "linear-rgb8-color_u8"@) {
        Some(VoxelExportType::LinearRgb8ColorU8)
    } else if names_match(s, "metallic-value_u8"@) {
        Some(VoxelExportType::MetallicValueU8)
    } else if names_match(s, "roughness-value_u8"@) {
        Some(VoxelExportType::RoughnessValueU8)
    } else {
        None
    }
}

fn chars_match_name(s: &[char], name: &[char]) -> (r: bool)
    ensures
        r == names_match(s@, name@),
{
    if s.len() != name.len() {
        return false;
    }
    let mut i: usize = 0;
    while i < s.len()
        invariant
            s@.len() == name@.len(),
            i <= s@.len(),
            forall|j: int| 0 <= j < i ==> ascii_eq_ignore_case(s@[j], name@[j]),
        decreases s@.len() - i,
    {
        let c = s[i];
        let lower = name[i];
        if !(c == lower || ('A' <= c && c <= 'Z' && (c as u32) + 32 == lower as u32)) {
            return false;
        }
        i = i + 1;
    }
    true
}

impl ExportArgs {
    /// The export type named by `export_format`, ignoring ASCII case.
    pub fn export_format(&self) -> (r: Result<VoxelExportType, InputError>)
        ensures
            match export_type_named(self.export_format@) {
                Some(t) => r == Ok::<VoxelExportType, InputError>(t),
                None => r == Err::<VoxelExportType, InputError>(InputError::InvalidExportType),
            },
    {
        let s = chars_of(self.export_format.as_str());
        if chars_match_name(s.as_slice(), chars_of("binary-edge_u1").as_slice()) {
            Ok(VoxelExportType::BinaryEdgeStateU1)
        } else if chars_match_name(s.as_slice(), chars_of("binary-fill_u1").as_slice()) {
            Ok(VoxelExportType::BinaryFillStateU1)
        } else if chars_match_name(s.as_slice(), chars_of("linear-rgb8-color_u8").as_slice()) {
            Ok(VoxelExportType::LinearRgb8ColorU8)
        } else if chars_match_name(s.as_slice(), chars_of("metallic-value_u8").as_slice()) {
            Ok(VoxelExportType::MetallicValueU8)
        } else if chars_match_name(s.as_slice(), chars_of("roughness-value_u8").as_slice()) {
            Ok(VoxelExportType::RoughnessValueU8)
        } else {
            Err(InputError::InvalidExportType)
        }
    }
}

/// The text of the three components of a point, "(x, y, z)", each trimmed.
#[derive(Debug)]
pub struct XyzComponents {
    pub x: String,
    pub y: String,
    pub z: String,
}

/// `t` without its enclosing pair of parentheses, where it starts with '(' and ends
/// with ')'; otherwise `t` itself.
pub open spec fn strip_parens(t: Seq<char>) -> Seq<char> {
    if t.len() >= 2 && t[0] == '(' && t.last() == ')' {
        t.subrange(1, t.len() - 1)
    } else {
        t
    }
}

/// The trimmed comma-separated components of a point, if there are exactly three.
pub open spec fn xyz_components(s: Seq<char>) -> Option<(Seq<char>, Seq<char>, Seq<char>)> {
    let parts = split_char(strip_parens(trim(s)), ',');
    if parts.len() == 3 {
        Some((trim(parts[0]), trim(parts[1]), trim(parts[2])))
    } else {
        None
    }
}

/// The components of both points of a bounds text "(x, y, z) / (x, y, z)", split at
/// the first '/'.
pub open spec fn bounds_components(s: Seq<char>) -> Option<
    ((Seq<char>, Seq<char>, Seq<char>), (Seq<char>, Seq<char>, Seq<char>)),
> {
    let i = find_char(s, '/');
    if 0 <= i < s.len() {
        match (xyz_components(s.subrange(0, i)), xyz_components(s.subrange(i + 1, s.len() as int))) {
            (Some(a), Some(b)) => Some((a, b)),
            _ => None,
        }
    } else {
        None
    }
}

pub open spec fn xyz_holds(r: XyzComponents, p: (Seq<char>, Seq<char>, Seq<char>)) -> bool {
    r.x@ == p.0 && r.y@ == p.1 && r.z@ == p.2
}

fn strip_parens_chars(t: Vec<char>) -> (r: Vec<char>)
    ensures
        r@ == strip_parens(t@),
{
    let n = t.len();
    if n >= 2 && t[0] == '(' && t[n - 1] == ')' {
        sub_chars(t.as_slice(), 1, n - 1)
    } else {
        t
    }
}

fn split_xyz_chars(s: &[char]) -> (r: Result<XyzComponents, InputError>)
    ensures
        match xyz_components(s@) {
            Some(p) => r matches Ok(q) && xyz_holds(q, p),
            None => r == Err::<XyzComponents, InputError>(InputError::InvalidVoxelizationBounds),
        },
{
    let inner = strip_parens_chars(trim_chars(s));
    let parts = split_chars(inner.as_slice(), ',');
    if parts.len() != 3 {
        return Err(InputError::InvalidVoxelizationBounds);
    }
    let x = trim_chars(parts[0].as_slice());
    let y = trim_chars(parts[1].as_slice());
    let z = trim_chars(parts[2].as_slice());
    Ok(
        XyzComponents {
            x: string_from_chars(x.as_slice()),
            y: string_from_chars(y.as_slice()),
            z: string_from_chars(z.as_slice()),
        },
    )
}

/// The three trimmed components of a point "(x, y, z)"; the parentheses are optional.
pub fn split_xyz_components(s: &str) -> (r: Result<XyzComponents, InputError>)
    ensures
        match xyz_components(s@) {
            Some(p) => r matches Ok(q) && xyz_holds(q, p),
            None => r == Err::<XyzComponents, InputError>(InputError::InvalidVoxelizationBounds),
        },
{
    let v = chars_of(s);
    split_xyz_chars(v.as_slice())
}

/// The components of the minimum and the maximum point of a bounds text
/// "(min_x, min_y, min_z) / (max_x, max_y, max_z)".
pub fn split_voxelization_bounds(s: &str) -> (r: Result<(XyzComponents, XyzComponents), InputError>)
    ensures
        match bounds_components(s@) {
            Some(p) => r matches Ok(q) && xyz_holds(q.0, p.0) && xyz_holds(q.1, p.1),
            None => r == Err::<(XyzComponents, XyzComponents), InputError>(
                InputError::InvalidVoxelizationBounds,
            ),
        },
{
    let v = chars_of(s);
    let n = v.len();
    match find_char_exec(v.as_slice(), '/') {
        None => Err(InputError::InvalidVoxelizationBounds),
        Some(i) => {
            proof {
                crate::text::lemma_find_char_bounds(v@, '/');
            }
            let left = sub_chars(v.as_slice(), 0, i);
            let right = sub_chars(v.as_slice(), i + 1, n);
            let minimum = split_xyz_chars(left.as_slice());
            let maximum = split_xyz_chars(right.as_slice());
            match (minimum, maximum) {
                (Ok(a), Ok(b)) => Ok((a, b)),
                _ => Err(InputError::InvalidVoxelizationBounds),
            }
        },
    }
}

} // verus!
