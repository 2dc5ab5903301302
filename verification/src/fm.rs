//! Handles to files on disk, each with a deletion policy, and the external
//! tools the pipeline knows.

use crate::errors::{ErrorModel, PipelineError};
use crate::text::{ends_with, has_suffix, texts};
use vstd::prelude::*;

verus! {

/// The format family of a file.
#[derive(Clone, Copy, Debug, PartialEq, Eq, Structural)]
pub enum FileType {
    /// Variant-call text.
    Vcf,
    /// Compressed variant-call text.
    VcfGz,
    /// Anything else.
    Other,
}

/// The format family that a path's name announces.
pub open spec fn kind_of_path(path: Seq<char>) -> FileType {
    if has_suffix(path, ".vcf.gz"@) {
        FileType::VcfGz
    } else if has_suffix(path, ".vcf"@) {
        FileType::Vcf
    } else {
        FileType::Other
    }
}

/// The format family that `path` announces.
pub fn file_type_of(path: &str) -> (r: FileType)
    ensures
        r == kind_of_path(path@),
{
    if ends_with(path, ".vcf.gz") {
        FileType::VcfGz
    } else if ends_with(path, ".vcf") {
        FileType::Vcf
    } else {
        FileType::Other
    }
}

/// What a file handle stands for: a path and whether the file is temporary.
pub struct FileModel {
    pub path: Seq<char>,
    pub will_be_deleted: bool,
}

/// What every managed file offers.
pub trait FileManage: View<V = FileModel> {
    /// Whether the file is temporary.
    fn get_will_be_deleted(&self) -> (r: bool)
        ensures
            r == self@.will_be_deleted,
    ;

    /// Sets whether the file is temporary; the path stays.
    fn set_will_be_deleted(&mut self, will_be_deleted: bool)
        ensures
            final(self)@.will_be_deleted == will_be_deleted,
            final(self)@.path == old(self)@.path,
    ;

    /// The format family, decided when the handle was made.
    fn type_of(&self) -> (r: FileType)
        ensures
            r == kind_of_path(self@.path),
    ;

    /// The path.
    fn get_path(&self) -> (r: &str)
        ensures
            r@ == self@.path,
    ;
}

/// A handle to a variant file.
#[derive(Debug)]
pub struct VcfFile {
    path: String,
    will_be_deleted: bool,
    kind: FileType,
}

impl View for VcfFile {
    type V = FileModel;

    closed spec fn view(&self) -> FileModel {
        FileModel { path: self.path@, will_be_deleted: self.will_be_deleted }
    }
}

impl VcfFile {
    #[verifier::type_invariant]
    spec fn kind_matches_path(&self) -> bool {
        self.kind == kind_of_path(self.path@)
    }

    /// A permanent handle to `path`. The file need not exist yet.
    pub fn new(path: &str) -> (r: Self)
        ensures
            r@ == (FileModel { path: path@, will_be_deleted: false }),
    {
        VcfFile { path: String::from_str(path), will_be_deleted: false, kind: file_type_of(path) }
    }

    /// A builder for a handle to `path`.
    pub fn builder(path: &str) -> (r: VcfFileBuilder)
        ensures
            r@ == (FileModel { path: path@, will_be_deleted: false }),
    {
        VcfFileBuilder::new(path)
    }

    /// Clears the deletion flag. A second call changes nothing.
    pub fn mark_permanent(&mut self)
        ensures
            final(self)@ == (FileModel { path: old(self)@.path, will_be_deleted: false }),
    {
        self.set_will_be_deleted(false);
    }

    /// What the end of the owning scope asks for: the path to remove from
    /// disk if the file is temporary, nothing if it is permanent.
    pub fn finalize(self) -> (r: Option<String>)
        ensures
            self@.will_be_deleted ==> r is Some && r->Some_0@ == self@.path,
            !self@.will_be_deleted ==> r is None,
    {
        if self.will_be_deleted {
            Some(self.path)
        } else {
            None
        }
    }

    /// A handle equal to this one.
    pub fn duplicate(&self) -> (r: VcfFile)
        ensures
            r@ == self@,
    {
        proof {
            use_type_invariant(self);
        }
        VcfFile {
            path: self.path.clone(),
            will_be_deleted: self.will_be_deleted,
            kind: self.kind,
        }
    }
}

impl FileManage for VcfFile {
    fn get_will_be_deleted(&self) -> (r: bool) {
        self.will_be_deleted
    }

    fn set_will_be_deleted(&mut self, will_be_deleted: bool) {
        proof {
            use_type_invariant(&*self);
        }
        self.will_be_deleted = will_be_deleted;
    }

    fn type_of(&self) -> (r: FileType) {
        proof {
            use_type_invariant(self);
        }
        self.kind
    }

    fn get_path(&self) -> (r: &str) {
        self.path.as_str()
    }
}

/// The models of `files`, in order.
pub open spec fn models_of(files: Seq<VcfFile>) -> Seq<FileModel> {
    Seq::new(files.len(), |i: int| files[i]@)
}

/// The paths to remove from disk when `files` are released: those of the
/// temporary files, in order.
pub open spec fn to_remove(files: Seq<FileModel>) -> Seq<Seq<char>>
    decreases files.len(),
{
    if files.len() == 0 {
        Seq::empty()
    } else {
        let before = to_remove(files.drop_last());
        if files.last().will_be_deleted {
            before.push(files.last().path)
        } else {
            before
        }
    }
}

/// Every temporary file among those released is removed.
pub proof fn lemma_temporary_is_removed(files: Seq<FileModel>, i: int)
    requires
        0 <= i < files.len(),
        files[i].will_be_deleted,
    ensures
        to_remove(files).contains(files[i].path),
    decreases files.len(),
{
    let before = to_remove(files.drop_last());
    if i == files.len() - 1 {
        assert(before.push(files[i].path)[before.len() as int] == files[i].path);
    } else {
        lemma_temporary_is_removed(files.drop_last(), i);
        let k = choose|k: int| 0 <= k < before.len() && before[k] == files[i].path;
        assert(to_remove(files)[k] == files[i].path);
    }
}

/// A path that only permanent files have is never removed.
pub proof fn lemma_permanent_is_kept(files: Seq<FileModel>, path: Seq<char>)
    requires
        forall|i: int|
            0 <= i < files.len() && (#[trigger] files[i]).path == path
                ==> !files[i].will_be_deleted,
    ensures
        !to_remove(files).contains(path),
    decreases files.len(),
{
    if files.len() > 0 {
        let front = files.drop_last();
        assert forall|i: int| 0 <= i < front.len() && (#[trigger] front[i]).path == path implies 
            !front[i].will_be_deleted by {
            assert(front[i] == files[i]);
        }
        lemma_permanent_is_kept(front, path);
        if to_remove(files).contains(path) {
            let k = choose|k: int| 0 <= k < to_remove(files).len() && to_remove(files)[k] == path;
            if k < to_remove(front).len() {
                assert(to_remove(front)[k] == path);
            } else {
                assert(files[files.len() - 1].path == path);
            }
        }
    }
}

/// Releases `files` at the end of their scope: gives the paths to remove
/// from disk, which are those of the temporary files.
pub fn release_all(files: Vec<VcfFile>) -> (r: Vec<String>)
    ensures
        texts(r@) == to_remove(models_of(files@)),
{
    let mut paths: Vec<String> = Vec::new();
    let mut i: usize = 0;
    proof {
        assert(models_of(files@).take(0) =~= Seq::<FileModel>::empty());
        assert(texts(paths@) =~= Seq::<Seq<char>>::empty());
    }
    while i < files.len()
        invariant
            i <= files.len(),
            texts(paths@) == to_remove(models_of(files@).take(i as int)),
        decreases files.len() - i,
    {
        proof {
            let next = models_of(files@).take(i + 1);
            assert(next.drop_last() =~= models_of(files@).take(i as int));
            assert(next.last() == files@[i as int]@);
        }
        if files[i].get_will_be_deleted() {
            let path = String::from_str(files[i].get_path());
            proof {
                assert(texts(paths@.push(path)) =~= texts(paths@).push(path@));
            }
            paths.push(path);
        }
        i += 1;
    }
    proof {
        assert(models_of(files@).take(files@.len() as int) =~= models_of(files@));
    }
    paths
}

/// What is reported after the attempt to remove a temporary file: nothing
/// when it is gone (removed now, or absent already), a warning otherwise.
pub fn removal_report(path: &str, gone: bool) -> (r: Option<PipelineError>)
    ensures
        gone ==> r is None,
        !gone ==> r is Some && r->Some_0@ == (ErrorModel::ResourceCleanupWarning {
            path: path@,
        }),
{
    if gone {
        None
    } else {
        Some(PipelineError::ResourceCleanupWarning { path: String::from_str(path) })
    }
}

/// Collects the settings of a `VcfFile` before it is made.
pub struct VcfFileBuilder {
    path: String,
    will_be_deleted: bool,
}

impl View for VcfFileBuilder {
    type V = FileModel;

    closed spec fn view(&self) -> FileModel {
        FileModel { path: self.path@, will_be_deleted: self.will_be_deleted }
    }
}

impl VcfFileBuilder {
    /// A builder for a permanent handle to `path`.
    pub fn new(path: &str) -> (r: Self)
        ensures
            r@ == (FileModel { path: path@, will_be_deleted: false }),
    {
        VcfFileBuilder { path: String::from_str(path), will_be_deleted: false }
    }

    /// Sets whether the file will be temporary.
    pub fn will_be_deleted(self, will_be_deleted: bool) -> (r: Self)
        ensures
            r@ == (FileModel { path: self@.path, will_be_deleted }),
    {
        let mut b = self;
        b.will_be_deleted = will_be_deleted;
        b
    }

    /// The handle with the settings collected.
    pub fn build(self) -> (r: VcfFile)
        ensures
            r@ == self@,
    {
        let kind = file_type_of(self.path.as_str());
        VcfFile { path: self.path, will_be_deleted: self.will_be_deleted, kind }
    }
}

/// The external tools.
#[derive(Clone, Copy, Debug, PartialEq, Eq, Structural)]
pub enum Binary {
    Vcftools,
    VcfConcat,
    Plink,
    SnpEff,
}

/// The file name of a tool, on Windows or elsewhere.
pub open spec fn binary_name(b: Binary, windows: bool) -> Seq<char> {
    match b {
        Binary::Vcftools => if windows {
            "vcftools.exe"@
        } else {
            "vcftools"@
        },
        Binary::VcfConcat => if windows {
            "vcf-concat.exe"@
        } else {
            "vcf-concat"@
        },
        Binary::Plink => if windows {
            "plink.exe"@
        } else {
            "plink"@
        },
        Binary::SnpEff => "snpEff.jar"@,
    }
}

/// The environment variable that holds a tool's location.
pub open spec fn binary_env_name(b: Binary) -> Seq<char> {
    match b {
        Binary::Vcftools => "VCFTOOLS_PATH"@,
        Binary::VcfConcat => "VCFCONCAT_PATH"@,
        Binary::Plink => "PLINK_PATH"@,
        Binary::SnpEff => "SNPEFF_PATH"@,
    }
}

/// `std::path::is_separator`: whether the platform's paths take `c` as a
/// separator of components. Nothing is claimed of the answer, which
/// differs from one platform to another.
#[verifier::external_body]
fn separates_components(c: char) -> bool {
    std::path::is_separator(c)
}

impl Binary {
    /// The tool's file name on this platform: with the executable suffix
    /// where paths take the backslash as a separator, as they do on
    /// Windows, and without it elsewhere. `name_on` gives the name for a
    /// platform of the caller's choice.
    pub fn name(&self) -> (r: String)
        ensures
            r@ == binary_name(*self, false) || r@ == binary_name(*self, true),
    {
        self.name_on(separates_components('\\'))
    }

    /// The tool's file name, with the executable suffix on Windows.
    pub fn name_on(&self, windows: bool) -> (r: String)
        ensures
            r@ == binary_name(*self, windows),
    {
        match self {
            Binary::Vcftools => {
                if windows {
                    String::from_str("vcftools.exe")
                } else {
                    String::from_str("vcftools")
                }
            },
            Binary::VcfConcat => {
                if windows {
                    String::from_str("vcf-concat.exe")
                } else {
                    String::from_str("vcf-concat")
                }
            },
            Binary::Plink => {
                if windows {
                    String::from_str("plink.exe")
                } else {
                    String::from_str("plink")
                }
            },
            Binary::SnpEff => String::from_str("snpEff.jar"),
        }
    }

    /// The environment variable that holds the tool's location.
    pub fn env_name(&self) -> (r: String)
        ensures
            r@ == binary_env_name(*self),
    {
        match self {
            Binary::Vcftools => String::from_str("VCFTOOLS_PATH"),
            Binary::VcfConcat => String::from_str("VCFCONCAT_PATH"),
            Binary::Plink => String::from_str("PLINK_PATH"),
            Binary::SnpEff => String::from_str("SNPEFF_PATH"),
        }
    }
}

/// Where a tool's location comes from. A location given on the command
/// line wins and is to be stored. Without one, a location that the
/// environment already holds is kept if a file is there, and refused if
/// none is. Without either, the location found on the search path is to be
/// stored, and it is an error if none was found.
///
/// `Ok(Some(p))`: store `p`; `Ok(None)`: keep what is stored; `Err(m)`:
/// fail with the message `m`.
pub open spec fn location_of(
    b: Binary,
    windows: bool,
    given: Option<Seq<char>>,
    stored: Option<Seq<char>>,
    stored_exists: bool,
    on_search_path: Option<Seq<char>>,
) -> Result<Option<Seq<char>>, Seq<char>> {
    match given {
        Some(p) => Ok(Some(p)),
        None => match stored {
            Some(v) => if stored_exists {
                Ok(None)
            } else {
                Err(
                    binary_env_name(b) + " doesn't point to "@ + v
                        + ", which is not a valid file."@,
                )
            },
            None => match on_search_path {
                Some(p) => Ok(Some(p)),
                None => Err(
                    binary_name(b, windows)
                        + " can't be found in PATH. Neither is it designated by cli parameter or "@
                        + binary_env_name(b) + "."@,
                ),
            },
        },
    }
}

/// A text, if any, as a sequence of characters.
pub open spec fn text_model(t: Option<&str>) -> Option<Seq<char>> {
    match t {
        Some(s) => Some(s@),
        None => None,
    }
}

impl Binary {
    /// Decides where this tool's location comes from: the location to
    /// store, nothing to change, or the message to fail with.
    pub fn set_env(
        &self,
        windows: bool,
        given: Option<&str>,
        stored: Option<&str>,
        stored_exists: bool,
        on_search_path: Option<&str>,
    ) -> (r: Result<Option<String>, String>)
        ensures
            match location_of(
                *self,
                windows,
                text_model(given),
                text_model(stored),
                stored_exists,
                text_model(on_search_path),
            ) {
                Ok(Some(p)) => r is Ok && r->Ok_0 is Some && r->Ok_0->Some_0@ == p,
                Ok(None) => r is Ok && r->Ok_0 is None,
                Err(m) => r is Err && r->Err_0@ == m,
            },
    {
        match given {
            Some(p) => Ok(Some(String::from_str(p))),
            None => match stored {
                Some(v) => {
                    if stored_exists {
                        Ok(None)
                    } else {
                        let mut m = self.env_name();
                        m.append(" doesn't point to ");
                        m.append(v);
                        m.append(", which is not a valid file.");
                        Err(m)
                    }
                },
                None => match on_search_path {
                    Some(p) => Ok(Some(String::from_str(p))),
                    None => {
                        let mut m = self.name_on(windows);
                        m.append(
                            " can't be found in PATH. \
                             Neither is it designated by cli parameter or ",
                        );
                        m.append(self.env_name().as_str());
                        m.append(".");
                        Err(m)
                    },
                },
            },
        }
    }
}

} // verus!
