//! Raw picture files that have lost their developed picture: a raw file is
//! extra when no JPEG file has the same file stem.

use crate::paths::{
    ends_with, extension, file_stem, path_ends_with, path_extension, path_file_stem, text_of,
};
use crate::text::{
    chars_of, extend, lowercase, replace, replace_spec, same_chars, str_lowercase, string_of,
};
use vstd::prelude::*;

verus! {

/// Whether an extension, whatever its case, is one of a JPEG file.
pub open spec fn is_jpg_extension(ext: Seq<char>) -> bool {
    str_lowercase(ext) == "jpg"@ || str_lowercase(ext) == "jpeg"@
}

/// Whether an extension, whatever its case, is the one of a raw file.
pub open spec fn is_raw_extension(ext: Seq<char>) -> bool {
    str_lowercase(ext) == "raf"@
}

pub open spec fn is_jpg_file_spec(path: Seq<char>) -> bool {
    match path_extension(path) {
        Some(ext) => is_jpg_extension(ext),
        None => false,
    }
}

pub open spec fn is_raw_file_spec(path: Seq<char>) -> bool {
    match path_extension(path) {
        Some(ext) => is_raw_extension(ext),
        None => false,
    }
}

/// Whether the path's last component is `jpg`.
pub fn is_jpg_dir(path: &str) -> (r: bool)
    ensures
        r == path_ends_with(path@, "jpg"@),
{
    ends_with(path, "jpg")
}

/// Whether the path's last component is `raw`.
pub fn is_raw_dir(path: &str) -> (r: bool)
    ensures
        r == path_ends_with(path@, "raw"@),
{
    ends_with(path, "raw")
}

/// Whether the path has the extension of a JPEG file, in any case.
pub fn is_jpg_file(path: &str) -> (r: bool)
    ensures
        r == is_jpg_file_spec(path@),
{
    match extension(path) {
        Some(ext) => {
            let lower = lowercase(&chars_of(ext.as_str()));
            same_chars(&lower, &chars_of("jpg")) || same_chars(&lower, &chars_of("jpeg"))
        },
        None => false,
    }
}

/// Whether the path has the extension of a raw file, in any case.
pub fn is_raw_file(path: &str) -> (r: bool)
    ensures
        r == is_raw_file_spec(path@),
{
    match extension(path) {
        Some(ext) => {
            let lower = lowercase(&chars_of(ext.as_str()));
            same_chars(&lower, &chars_of("raf"))
        },
        None => false,
    }
}

/// Whether one of `jpgs` has the file stem of `raw`. Two paths without a file
/// stem count as having the same.
pub open spec fn has_corresponding_jpg(raw: Seq<char>, jpgs: Seq<Seq<char>>) -> bool {
    exists|i: int| 0 <= i < jpgs.len() && path_file_stem(#[trigger] jpgs[i]) == path_file_stem(raw)
}

/// Whether two optional strings hold the same text, or both none.
pub fn same_text(a: &Option<String>, b: &Option<String>) -> (r: bool)
    ensures
        r == (text_of(*a) == text_of(*b)),
{
    match a {
        Some(a) => match b {
            Some(b) => {
                let r = *a == *b;
                r
            },
            None => false,
        },
        None => b.is_none(),
    }
}

/// Whether one of `jpgs` has the file stem of `raw`.
pub fn does_raw_have_corresponding_jpg(raw: &String, jpgs: &Vec<String>) -> (r: bool)
    ensures
        r == has_corresponding_jpg(raw@, jpgs.deep_view()),
{
    let stem = file_stem(raw.as_str());
    let mut i: usize = 0;
    while i < jpgs.len()
        invariant
            i <= jpgs.len(),
            text_of(stem) == path_file_stem(raw@),
            forall|j: int| 0 <= j < i ==> path_file_stem(#[trigger] jpgs.deep_view()[j]) != path_file_stem(raw@),
        decreases jpgs.len() - i,
    {
        let other = file_stem(jpgs[i].as_str());
        assert(jpgs.deep_view()[i as int] == jpgs[i as int]@);
        if same_text(&stem, &other) {
            return true;
        }
        i = i + 1;
    }
    assert(jpgs.deep_view().len() == jpgs.len());
    false
}

/// The raw files, in their order, that have no JPEG file of the same stem.
pub open spec fn extra_raw_files(jpgs: Seq<Seq<char>>, raws: Seq<Seq<char>>) -> Seq<Seq<char>> {
    raws.filter(|raw: Seq<char>| !has_corresponding_jpg(raw, jpgs))
}

/// The raw files, in their order, that have no JPEG file of the same stem.
pub fn find_extra_raw_files(jpgs: &Vec<String>, raws: &Vec<String>) -> (extra: Vec<String>)
    ensures
        extra.deep_view() == extra_raw_files(jpgs.deep_view(), raws.deep_view()),
{
    let mut extra: Vec<String> = Vec::new();
    let ghost keep = |raw: Seq<char>| !has_corresponding_jpg(raw, jpgs.deep_view());
    let mut i: usize = 0;
    proof {
        assert(raws.deep_view().take(0) =~= Seq::<Seq<char>>::empty());
        assert(extra.deep_view() =~= Seq::<Seq<char>>::empty());
    }
    while i < raws.len()
        invariant
            i <= raws.len(),
            keep == |raw: Seq<char>| !has_corresponding_jpg(raw, jpgs.deep_view()),
            extra.deep_view() == raws.deep_view().take(i as int).filter(keep),
        decreases raws.len() - i,
    {
        let ghost before = extra.deep_view();
        proof {
            let upto = raws.deep_view().take(i + 1);
            assert(upto.drop_last() =~= raws.deep_view().take(i as int));
            assert(upto.last() == raws[i as int]@);
            reveal(Seq::filter);
        }
        if !does_raw_have_corresponding_jpg(&raws[i], jpgs) {
            extra.push(raws[i].clone());
            assert(extra.deep_view() =~= before.push(raws[i as int]@));
        }
        i = i + 1;
    }
    proof {
        assert(raws.deep_view().take(raws.len() as int) =~= raws.deep_view());
    }
    extra
}

/// A path without its extension: the path with every `.` followed by the
/// extension taken out.
pub open spec fn strip_extension_spec(path: Seq<char>) -> Seq<char> {
    match path_extension(path) {
        Some(ext) => replace_spec(path, seq!['.'] + ext, Seq::empty()),
        None => path,
    }
}

/// The path without its extension. The path must have one.
pub fn strip_extension(path: &str) -> (r: String)
    requires
        path_extension(path@) is Some,
    ensures
        r@ == strip_extension_spec(path@),
{
    let ext = extension(path);
    match ext {
        Some(ext) => {
            let mut needle: Vec<char> = Vec::new();
            needle.push('.');
            extend(&mut needle, &chars_of(ext.as_str()));
            assert(needle@ =~= seq!['.'] + ext@);
            let none: Vec<char> = Vec::new();
            assert(none@ =~= Seq::<char>::empty());
            string_of(&replace(&chars_of(path), &needle, &none))
        },
        None => string_of(&chars_of(path)),
    }
}

/// The path without its extension, or nothing where it has none.
pub fn try_strip_extension(path: &str) -> (r: Option<String>)
    ensures
        r is Some <==> path_extension(path@) is Some,
        r matches Some(stripped) ==> stripped@ == strip_extension_spec(path@),
{
    match extension(path) {
        Some(_) => Some(strip_extension(path)),
        None => None,
    }
}

} // verus!
