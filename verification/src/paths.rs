//! Rules on path texts.
use crate::text::{characters, is_ascii_letter};
use vstd::prelude::*;

verus! {

/// The path syntax of a platform.
#[derive(Clone, Copy, Debug, PartialEq, Eq, Structural)]
pub enum PathStyle {
    Posix,
    Windows,
}

/// What a Windows path begins with.
#[derive(Clone, Copy, Debug, PartialEq, Eq, Structural)]
pub enum PathPrefix {
    /// No prefix at all.
    Missing,
    /// A drive, such as `C:`.
    Disk,
    /// A drive behind `\\?\`.
    VerbatimDisk,
    /// A network share, a device, or another verbatim prefix.
    Other,
}

pub open spec fn windows_separator(c: char) -> bool {
    c == '/' || c == '\\'
}

fn is_windows_separator(c: char) -> (result: bool)
    ensures
        result == windows_separator(c),
{
    c == '/' || c == '\\'
}

/// Where the component that starts at `from` ends.
pub open spec fn component_end(path: Seq<char>, from: int) -> int
    decreases path.len() - from,
{
    if from < 0 || from >= path.len() || windows_separator(path[from]) {
        from
    } else {
        component_end(path, from + 1)
    }
}

/// A drive letter and a colon stand at `at`.
pub open spec fn drive_at(path: Seq<char>, at: int) -> bool {
    at + 2 <= path.len() && crate::text::ascii_alphabetic(path[at]) && path[at + 1] == ':'
}

/// The prefix of a Windows path.
pub open spec fn windows_prefix(path: Seq<char>) -> PathPrefix {
    if path.len() >= 2 && windows_separator(path[0]) && windows_separator(path[1]) {
        if path.len() >= 4 && path[0] == '\\' && path[1] == '\\' && path[2] == '?' && path[3]
            == '\\' {
            if drive_at(path, 4) && (path.len() == 6 || windows_separator(path[6])) {
                PathPrefix::VerbatimDisk
            } else {
                PathPrefix::Other
            }
        } else if path.len() >= 4 && path[2] == '.' && windows_separator(path[3]) {
            PathPrefix::Other
        } else {
            let server = component_end(path, 2);
            let share = component_end(path, server + 1);
            if server > 2 && server < path.len() && share > server + 1 {
                PathPrefix::Other
            } else {
                PathPrefix::Missing
            }
        }
    } else if drive_at(path, 0) {
        PathPrefix::Disk
    } else {
        PathPrefix::Missing
    }
}

/// A path that does not depend on a current directory.
pub open spec fn absolute(style: PathStyle, path: Seq<char>) -> bool {
    match style {
        PathStyle::Posix => path.len() > 0 && path[0] == '/',
        PathStyle::Windows => match windows_prefix(path) {
            PathPrefix::Missing => false,
            PathPrefix::Disk => path.len() > 2 && windows_separator(path[2]),
            PathPrefix::VerbatimDisk => true,
            PathPrefix::Other => true,
        },
    }
}

/// An absolute path on a local drive, not on a share or a device.
pub open spec fn local_absolute(style: PathStyle, path: Seq<char>) -> bool {
    absolute(style, path) && (style is Windows ==> (windows_prefix(path) is Disk || windows_prefix(
        path,
    ) is VerbatimDisk))
}

/// A Windows path on a share or a device.
pub open spec fn nonlocal(style: PathStyle, path: Seq<char>) -> bool {
    style is Windows && windows_prefix(path) is Other
}

fn end_of_component(path: &Vec<char>, from: usize) -> (end: usize)
    requires
        from <= path@.len(),
    ensures
        end == component_end(path@, from as int),
        from <= end <= path@.len(),
{
    let mut end: usize = from;
    while end < path.len() && !is_windows_separator(path[end])
        invariant
            from <= end <= path@.len(),
            component_end(path@, from as int) == component_end(path@, end as int),
        decreases path@.len() - end,
    {
        end += 1;
    }
    end
}

fn is_drive_at(path: &Vec<char>, at: usize) -> (result: bool)
    requires
        at <= path@.len(),
    ensures
        result == drive_at(path@, at as int),
{
    path.len() - at >= 2 && is_ascii_letter(path[at]) && path[at + 1] == ':'
}

/// The prefix of a Windows path.
pub fn prefix_of(path: &str) -> (prefix: PathPrefix)
    ensures
        prefix == windows_prefix(path@),
{
    let chars = characters(path);
    if chars.len() >= 2 && is_windows_separator(chars[0]) && is_windows_separator(chars[1]) {
        if chars.len() >= 4 && chars[0] == '\\' && chars[1] == '\\' && chars[2] == '?' && chars[3]
            == '\\' {
            if is_drive_at(&chars, 4) && (chars.len() == 6 || is_windows_separator(chars[6])) {
                PathPrefix::VerbatimDisk
            } else {
                PathPrefix::Other
            }
        } else if chars.len() >= 4 && chars[2] == '.' && is_windows_separator(chars[3]) {
            PathPrefix::Other
        } else {
            let server: usize = end_of_component(&chars, 2);
            if server > 2 && server < chars.len() {
                let share: usize = end_of_component(&chars, server + 1);
                if share > server + 1 {
                    return PathPrefix::Other;
                }
            }
            PathPrefix::Missing
        }
    } else if is_drive_at(&chars, 0) {
        PathPrefix::Disk
    } else {
        PathPrefix::Missing
    }
}

pub fn is_absolute(style: PathStyle, path: &str) -> (result: bool)
    ensures
        result == absolute(style, path@),
{
    let chars = characters(path);
    match style {
        PathStyle::Posix => chars.len() > 0 && chars[0] == '/',
        PathStyle::Windows => match prefix_of(path) {
            PathPrefix::Missing => false,
            PathPrefix::Disk => chars.len() > 2 && is_windows_separator(chars[2]),
            PathPrefix::VerbatimDisk => true,
            PathPrefix::Other => true,
        },
    }
}

/// Whether a requested path is absolute and on a local drive.
pub fn is_local_absolute_input(style: PathStyle, path: &str) -> (result: bool)
    ensures
        result == local_absolute(style, path@),
{
    if !is_absolute(style, path) {
        return false;
    }
    match style {
        PathStyle::Posix => true,
        PathStyle::Windows => match prefix_of(path) {
            PathPrefix::Disk => true,
            PathPrefix::VerbatimDisk => true,
            _ => false,
        },
    }
}

pub fn is_nonlocal_windows_path(style: PathStyle, path: &str) -> (result: bool)
    ensures
        result == nonlocal(style, path@),
{
    match style {
        PathStyle::Posix => false,
        PathStyle::Windows => match prefix_of(path) {
            PathPrefix::Other => true,
            _ => false,
        },
    }
}

/// A path as configured where it is absolute, otherwise taken from a base
/// directory. `joined` is the path joined to that directory.
pub open spec fn resolved(style: PathStyle, path: Seq<char>, joined: Seq<char>) -> Seq<char> {
    if absolute(style, path) {
        path
    } else {
        joined
    }
}

pub fn resolve_path(style: PathStyle, path: &str, joined: &str) -> (result: String)
    ensures
        result@ == resolved(style, path@, joined@),
{
    if is_absolute(style, path) {
        path.to_string()
    } else {
        joined.to_string()
    }
}

/// A local path is never a path on a share or a device.
pub proof fn law_local_input_is_not_nonlocal(style: PathStyle, path: Seq<char>)
    ensures
        local_absolute(style, path) ==> absolute(style, path) && !nonlocal(style, path),
{
}

} // verus!
