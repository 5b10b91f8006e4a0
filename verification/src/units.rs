//! The units of work that a search hit expands into: one for each of its
//! files that is a disk image or an archive by name.

use vstd::prelude::*;

verus! {

/// One file of an item, as its metadata document describes it.
#[derive(Debug)]
pub struct FileDescriptor {
    pub name: String,
    pub size: Option<i64>,
}

/// One resolved download.
#[derive(Debug)]
pub struct DownloadUnit {
    pub identifier: String,
    pub title: String,
    pub file_name: String,
    pub download_url: String,
    pub size: Option<i64>,
}

/// The lower-case form of a text, as `str::to_lowercase` gives it.
pub uninterp spec fn lowercased(s: Seq<char>) -> Seq<char>;

/// Whether `suffix` stands at the end of `s`.
pub open spec fn is_suffix(suffix: Seq<char>, s: Seq<char>) -> bool {
    suffix.len() <= s.len() && s.subrange(s.len() - suffix.len(), s.len() as int) == suffix
}

/// Whether a name in lower case ends like a disk image or an archive.
pub open spec fn has_image_extension_spec(lower: Seq<char>) -> bool {
    is_suffix(".iso"@, lower) || is_suffix(".img"@, lower) || is_suffix(".zip"@, lower)
}

/// Whether a file is selected by its name, whatever the case of its
/// letters.
pub open spec fn is_image_name_spec(name: Seq<char>) -> bool {
    has_image_extension_spec(lowercased(name))
}

/// The address of a file of an item below a base address.
pub open spec fn url_spec(base: Seq<char>, identifier: Seq<char>, name: Seq<char>) -> Seq<char> {
    base + seq!['/'] + identifier + seq!['/'] + name
}

/// Calls `str::to_lowercase`: the result is the lower-case form of the
/// text, which depends on the text alone.
#[verifier::external_body]
fn to_lower(s: &str) -> (lower: String)
    ensures
        lower@ == lowercased(s@),
{
    s.to_lowercase()
}

/// Calls `str::ends_with` with a text as the pattern: the result says
/// whether the pattern stands at the end of the text.
#[verifier::external_body]
fn ends_with(s: &str, suffix: &str) -> (b: bool)
    ensures
        b == is_suffix(suffix@, s@),
{
    s.ends_with(suffix)
}

/// Calls `format!` on the three texts with a slash between them: the
/// result is the first, a slash, the second, a slash and the third.
#[verifier::external_body]
fn join_url(base: &str, identifier: &str, name: &str) -> (url: String)
    ensures
        url@ == url_spec(base@, identifier@, name@),
{
    format!("{}/{}/{}", base, identifier, name)
}

/// Whether a name that is already in lower case ends in `.iso`, `.img` or
/// `.zip`.
pub fn has_image_extension(lower: &str) -> (b: bool)
    ensures
        b == has_image_extension_spec(lower@),
{
    ends_with(lower, ".iso") || ends_with(lower, ".img") || ends_with(lower, ".zip")
}

/// Whether a file is selected by its name.
pub fn is_image_name(name: &str) -> (b: bool)
    ensures
        b == is_image_name_spec(name@),
{
    let lower = to_lower(name);
    has_image_extension(lower.as_str())
}

/// The files that are selected, in their order.
pub open spec fn selected(files: Seq<FileDescriptor>) -> Seq<FileDescriptor>
    decreases files.len(),
{
    if files.len() == 0 {
        Seq::empty()
    } else if is_image_name_spec(files.last().name@) {
        selected(files.drop_last()).push(files.last())
    } else {
        selected(files.drop_last())
    }
}

/// Whether a unit is the download of a file of an item.
pub open spec fn is_unit_of(
    unit: DownloadUnit,
    base: Seq<char>,
    identifier: Seq<char>,
    title: Seq<char>,
    file: FileDescriptor,
) -> bool {
    &&& unit.identifier@ == identifier
    &&& unit.title@ == title
    &&& unit.file_name@ == file.name@
    &&& unit.download_url@ == url_spec(base, identifier, file.name@)
    &&& unit.size == file.size
}

/// The files of a hit that become units: none for a hit without an
/// identifier, else the selected ones.
pub open spec fn files_of_hit(identifier: Seq<char>, files: Seq<FileDescriptor>) -> Seq<
    FileDescriptor,
> {
    if identifier.len() == 0 {
        Seq::empty()
    } else {
        selected(files)
    }
}

/// Expands one search hit into its units: one for each selected file, in
/// the order of the files, and none for a hit without an identifier.
pub fn resolve_units(base: &str, identifier: &str, title: &str, files: &Vec<FileDescriptor>) -> (units:
    Vec<DownloadUnit>)
    ensures
        units@.len() == files_of_hit(identifier@, files@).len(),
        forall|k: int|
            0 <= k < units@.len() ==> is_unit_of(
                #[trigger] units@[k],
                base@,
                identifier@,
                title@,
                files_of_hit(identifier@, files@)[k],
            ),
{
    let mut units: Vec<DownloadUnit> = Vec::new();
    if identifier.is_empty() {
        return units;
    }
    let mut i: usize = 0;
    proof {
        assert(files@.subrange(0, 0) =~= Seq::<FileDescriptor>::empty());
    }
    while i < files.len()
        invariant
            i <= files@.len(),
            units@.len() == selected(files@.subrange(0, i as int)).len(),
            forall|k: int|
                0 <= k < units@.len() ==> is_unit_of(
                    #[trigger] units@[k],
                    base@,
                    identifier@,
                    title@,
                    selected(files@.subrange(0, i as int))[k],
                ),
        decreases files@.len() - i,
    {
        let file = &files[i];
        proof {
            assert(files@.subrange(0, i + 1).drop_last() =~= files@.subrange(0, i as int));
            assert(files@.subrange(0, i + 1).last() == files@[i as int]);
        }
        if is_image_name(file.name.as_str()) {
            let unit = DownloadUnit {
                identifier: identifier.to_owned(),
                title: title.to_owned(),
                file_name: file.name.clone(),
                download_url: join_url(base, identifier, file.name.as_str()),
                size: file.size,
            };
            units.push(unit);
        }
        i = i + 1;
    }
    proof {
        assert(files@.subrange(0, i as int) =~= files@);
    }
    units
}

} // verus!
