//! The bookkeeping of one run: per-file decisions, counts, errors and the
//! summary.
//!
//! A run walks the collected files in order. For each file the caller makes
//! sure that the file's bucket directory exists and whether the destination
//! name is free, hands that over to [`OrganizeRun::authorize`], performs the move
//! or copy where it is told to, and reports the outcome to
//! [`OrganizeRun::complete`].
use vstd::prelude::*;
use vstd::string::*;
use crate::text::{names, copy_names, decimal, push_decimal};
use crate::classify::{bucket_of, bucket_name};
use crate::collect::{CollectedFile, admitted};

verus! {

/// Whether files are moved or copied into their buckets.
#[derive(Clone, Copy, Debug, PartialEq, Eq, Structural)]
pub enum FileOperationMode {
    /// Move files.
    Cut,
    /// Copy files, leaving the originals in place.
    Copy,
}

impl Default for FileOperationMode {
    fn default() -> (r: Self)
        ensures
            r == FileOperationMode::Cut,
    {
        FileOperationMode::Cut
    }
}

/// The files placed in one bucket, in the order they were placed.
pub struct ExtensionBucket {
    pub name: String,
    pub files: Vec<String>,
}

/// A bucket as its name and the names of its files.
pub type BucketView = (Seq<char>, Seq<Seq<char>>);

impl ExtensionBucket {
    pub open spec fn view(&self) -> BucketView {
        (self.name@, names(self.files@))
    }
}

/// The view of a list of buckets.
pub open spec fn buckets_view(m: Seq<ExtensionBucket>) -> Seq<BucketView> {
    m.map_values(|b: ExtensionBucket| b.view())
}

/// The number of files over all buckets.
pub open spec fn total_files(m: Seq<BucketView>) -> nat
    decreases m.len(),
{
    if m.len() == 0 {
        0
    } else {
        total_files(m.drop_last()) + m.last().1.len()
    }
}

/// No two buckets share a name.
pub open spec fn distinct_buckets(m: Seq<BucketView>) -> bool {
    forall|i: int, j: int| 0 <= i < j < m.len() ==> (#[trigger] m[i]).0 != (#[trigger] m[j]).0
}

/// The position of the bucket named `b`, counted from the end, or -1.
pub open spec fn find_bucket(m: Seq<BucketView>, b: Seq<char>) -> int
    decreases m.len(),
{
    if m.len() == 0 {
        -1
    } else if m.last().0 == b {
        m.len() - 1
    } else {
        find_bucket(m.drop_last(), b)
    }
}

/// The buckets after `name` is placed in bucket `b`: appended to it where it
/// exists, else in a new bucket at the end.
pub open spec fn add_file(m: Seq<BucketView>, b: Seq<char>, name: Seq<char>) -> Seq<BucketView> {
    let i = find_bucket(m, b);
    if i >= 0 {
        m.update(i, (b, m[i].1.push(name)))
    } else {
        m.push((b, seq![name]))
    }
}

/// The verb of a mode in the summary.
pub open spec fn verb(mode: FileOperationMode) -> Seq<char> {
    match mode {
        FileOperationMode::Cut => "moved"@,
        FileOperationMode::Copy => "copied"@,
    }
}

/// One summary line per bucket, in order, with its file count.
pub open spec fn bucket_lines(m: Seq<BucketView>) -> Seq<char>
    decreases m.len(),
{
    if m.len() == 0 {
        Seq::empty()
    } else {
        bucket_lines(m.drop_last()) + "  - "@ + m.last().0 + ": "@ + decimal(m.last().1.len())
            + " file(s)\n"@
    }
}

/// The summary of a run.
pub open spec fn summary_text(mode: FileOperationMode, total: nat, folders: nat, m: Seq<BucketView>) -> Seq<char> {
    "Organization complete\n\nFiles "@ + verb(mode) + ": "@ + decimal(total) + "\nFolders created: "@
        + decimal(folders) + "\n\nOrganized extensions:\n"@ + bucket_lines(m)
}

/// The summary of a run that found no files.
pub open spec fn empty_summary() -> Seq<char> {
    "No files were processed."@
}

/// The error recorded when bucket `b` could not be created.
pub open spec fn bucket_error(b: Seq<char>, detail: Seq<char>) -> Seq<char> {
    "Error al crear carpeta "@ + b + ": "@ + detail
}

/// The error recorded when the file `name` could not be placed.
pub open spec fn place_error(name: Seq<char>, detail: Seq<char>) -> Seq<char> {
    "Error al mover "@ + name + ": "@ + detail
}

/// What is said of a file whose destination name is already taken.
pub open spec fn collision_detail() -> Seq<char> {
    "el destino ya existe"@
}

/// The outcome of a run.
pub struct OrganizerResult {
    /// The files moved or copied.
    pub total_moved: usize,
    /// The bucket directories created by the run.
    pub folders_created: usize,
    /// The files placed, by bucket.
    pub extension_map: Vec<ExtensionBucket>,
    /// A text for people.
    pub summary: String,
    /// The per-file errors, where there were any.
    pub errors: Option<Vec<String>>,
}

impl OrganizerResult {
    pub open spec fn map_view(&self) -> Seq<BucketView> {
        buckets_view(self.extension_map@)
    }

    /// The count of files placed is the number of files over all buckets,
    /// and no two buckets share a name.
    pub open spec fn wf(&self) -> bool {
        &&& self.total_moved == total_files(self.map_view())
        &&& distinct_buckets(self.map_view())
    }

    /// The result of a run that found nothing to do.
    pub open spec fn is_empty_result(&self) -> bool {
        &&& self.total_moved == 0
        &&& self.folders_created == 0
        &&& self.extension_map@.len() == 0
        &&& self.summary@ == empty_summary()
        &&& self.errors is None
    }

    /// The result of a run that found no files.
    pub fn empty() -> (r: Self)
        ensures
            r.is_empty_result(),
            r.wf(),
    {
        let r = OrganizerResult {
            total_moved: 0,
            folders_created: 0,
            extension_map: Vec::new(),
            summary: String::from_str("No files were processed."),
            errors: None,
        };
        assert(r.map_view() =~= Seq::<BucketView>::empty());
        r
    }
}

/// What became of the bucket directory of the current file.
pub enum BucketStatus {
    /// It was there already.
    Present,
    /// It was created just now.
    Created,
    /// It could not be created; the text says why.
    CreateFailed(String),
}

/// The state of one run over a list of collected files.
pub struct OrganizeRun {
    pub mode: FileOperationMode,
    /// The files of the run, in the order they are processed.
    pub files: Vec<CollectedFile>,
    /// The number of files processed.
    pub next: usize,
    /// Whether the operation on the current file is under way.
    pub admitted: bool,
    pub total_moved: usize,
    pub folders_created: usize,
    pub extension_map: Vec<ExtensionBucket>,
    pub errors: Vec<String>,
    /// The buckets this run created, each once.
    pub created: Vec<String>,
}

proof fn lemma_find_bucket(m: Seq<BucketView>, b: Seq<char>)
    ensures
        -1 <= find_bucket(m, b) < m.len(),
        find_bucket(m, b) >= 0 ==> m[find_bucket(m, b)].0 == b,
        find_bucket(m, b) == -1 ==> forall|i: int| 0 <= i < m.len() ==> (#[trigger] m[i]).0 != b,
    decreases m.len(),
{
    if m.len() > 0 && m.last().0 != b {
        lemma_find_bucket(m.drop_last(), b);
        if find_bucket(m, b) == -1 {
            assert forall|i: int| 0 <= i < m.len() implies (#[trigger] m[i]).0 != b by {
                if i < m.len() - 1 {
                    assert(m[i] == m.drop_last()[i]);
                }
            }
        }
    }
}

proof fn lemma_total_update(m: Seq<BucketView>, i: int, v: BucketView)
    requires
        0 <= i < m.len(),
        v.1.len() == m[i].1.len() + 1,
    ensures
        total_files(m.update(i, v)) == total_files(m) + 1,
    decreases m.len(),
{
    let u = m.update(i, v);
    if i == m.len() - 1 {
        assert(u.drop_last() =~= m.drop_last());
    } else {
        assert(u.drop_last() =~= m.drop_last().update(i, v));
        lemma_total_update(m.drop_last(), i, v);
    }
}

proof fn lemma_add_file(m: Seq<BucketView>, b: Seq<char>, name: Seq<char>)
    requires
        distinct_buckets(m),
    ensures
        total_files(add_file(m, b, name)) == total_files(m) + 1,
        distinct_buckets(add_file(m, b, name)),
{
    lemma_find_bucket(m, b);
    let i = find_bucket(m, b);
    if i >= 0 {
        lemma_total_update(m, i, (b, m[i].1.push(name)));
    } else {
        let r = m.push((b, seq![name]));
        assert(r.drop_last() =~= m);
    }
}

/// The position of bucket `b` in `m`, found from the end.
fn locate_bucket(m: &Vec<ExtensionBucket>, b: &String) -> (r: Option<usize>)
    ensures
        r matches Some(i) ==> i < m@.len() && find_bucket(buckets_view(m@), b@) == i,
        r is None ==> find_bucket(buckets_view(m@), b@) == -1,
{
    let ghost mv = buckets_view(m@);
    let mut i: usize = m.len();
    assert(mv.subrange(0, i as int) =~= mv);
    while i > 0
        invariant
            i <= m@.len(),
            mv == buckets_view(m@),
            find_bucket(mv, b@) == find_bucket(mv.subrange(0, i as int), b@),
        decreases i,
    {
        let ghost prefix = mv.subrange(0, i as int);
        assert(prefix.drop_last() =~= mv.subrange(0, i - 1));
        assert(prefix.last() == m@[i - 1].view());
        if m[i - 1].name == *b {
            return Some(i - 1);
        }
        i = i - 1;
    }
    None
}

/// Places `name` in bucket `b`.
fn place(m: &mut Vec<ExtensionBucket>, b: String, name: String)
    ensures
        buckets_view(final(m)@) == add_file(buckets_view(old(m)@), b@, name@),
{
    let ghost mv = buckets_view(m@);
    match locate_bucket(m, &b) {
        Some(i) => {
            let mut files = copy_names(&m[i].files);
            files.push(name);
            assert(names(files@) =~= mv[i as int].1.push(name@));
            m.set(i, ExtensionBucket { name: b, files });
            assert(buckets_view(m@) =~= add_file(mv, b@, name@));
        },
        None => {
            let mut files: Vec<String> = Vec::new();
            files.push(name);
            assert(names(files@) =~= seq![name@]);
            m.push(ExtensionBucket { name: b, files });
            assert(buckets_view(m@) =~= add_file(mv, b@, name@));
        },
    }
}

/// The summary of the buckets, one line each.
fn push_bucket_lines(s: &mut String, m: &Vec<ExtensionBucket>)
    ensures
        final(s)@ == old(s)@ + bucket_lines(buckets_view(m@)),
{
    let ghost mv = buckets_view(m@);
    let ghost start = s@;
    let mut i: usize = 0;
    assert(mv.subrange(0, 0) =~= Seq::<BucketView>::empty());
    while i < m.len()
        invariant
            i <= m@.len(),
            mv == buckets_view(m@),
            s@ == start + bucket_lines(mv.subrange(0, i as int)),
        decreases m.len() - i,
    {
        assert(mv.subrange(0, i + 1).drop_last() =~= mv.subrange(0, i as int));
        assert(mv.subrange(0, i + 1).last() == m@[i as int].view());
        s.append("  - ");
        s.append(m[i].name.as_str());
        s.append(": ");
        push_decimal(s, m[i].files.len() as u64);
        s.append(" file(s)\n");
        i = i + 1;
        assert(s@ =~= start + bucket_lines(mv.subrange(0, i as int)));
    }
    assert(mv.subrange(0, m.len() as int) =~= mv);
}

/// Holds the operations of a run; the run itself is an [`OrganizeRun`].
pub struct FileOrganizerCore;

impl FileOrganizerCore {
    /// The summary of a run: the verb of the mode, the number of files placed,
    /// the number of folders created, and one line per bucket with its count.
    pub fn create_organization_summary(
        extension_map: &Vec<ExtensionBucket>,
        total_moved: usize,
        folders_created: usize,
        mode: FileOperationMode,
    ) -> (r: String)
        ensures
            r@ == summary_text(mode, total_moved as nat, folders_created as nat, buckets_view(extension_map@)),
    {
        let mut s = String::from_str("Organization complete\n\nFiles ");
        match mode {
            FileOperationMode::Cut => s.append("moved"),
            FileOperationMode::Copy => s.append("copied"),
        }
        s.append(": ");
        push_decimal(&mut s, total_moved as u64);
        s.append("\nFolders created: ");
        push_decimal(&mut s, folders_created as u64);
        s.append("\n\nOrganized extensions:\n");
        push_bucket_lines(&mut s, extension_map);
        s
    }
}

/// The text of an error: `lead`, then `subject`, a colon and `detail`.
fn error_text(lead: &str, subject: &str, detail: &str) -> (r: String)
    ensures
        r@ == lead@ + subject@ + ": "@ + detail@,
{
    let mut s = String::from_str(lead);
    s.append(subject);
    s.append(": ");
    s.append(detail);
    s
}

impl OrganizeRun {
    pub open spec fn map_view(&self) -> Seq<BucketView> {
        buckets_view(self.extension_map@)
    }

    /// The base names of the files of the run.
    pub open spec fn file_names(&self) -> Seq<Seq<char>> {
        self.files@.map_values(|f: CollectedFile| f.name@)
    }

    pub open spec fn current_name(&self) -> Seq<char> {
        self.files@[self.next as int].name@
    }

    pub open spec fn current_bucket(&self) -> Seq<char> {
        bucket_of(self.current_name())
    }

    /// Whether a file is waiting for `authorize`.
    pub open spec fn awaits_admission(&self) -> bool {
        self.next < self.files@.len() && !self.admitted
    }

    /// The counts agree with the buckets and the errors, each created bucket
    /// is counted once, and every file in a bucket is a file of the run.
    pub open spec fn wf(&self) -> bool {
        &&& self.next <= self.files@.len()
        &&& self.admitted ==> self.next < self.files@.len()
        &&& self.total_moved == total_files(self.map_view())
        &&& distinct_buckets(self.map_view())
        &&& self.folders_created == self.created@.len()
        &&& names(self.created@).no_duplicates()
        &&& self.total_moved + self.errors@.len() == self.next
        &&& self.created@.len() <= self.next + (if self.admitted { 1int } else { 0int })
        &&& forall|i: int, j: int|
            0 <= i < self.map_view().len() && 0 <= j < self.map_view()[i].1.len()
                ==> self.file_names().contains(#[trigger] self.map_view()[i].1[j])
    }

    /// A run over `files`, in their order, with nothing done yet.
    pub fn new(mode: FileOperationMode, files: Vec<CollectedFile>) -> (r: Self)
        ensures
            r.wf(),
            r.mode == mode,
            r.files == files,
            r.next == 0,
            !r.admitted,
            r.total_moved == 0,
            r.folders_created == 0,
            r.extension_map@.len() == 0,
            r.errors@.len() == 0,
            r.created@.len() == 0,
    {
        let r = OrganizeRun {
            mode,
            files,
            next: 0,
            admitted: false,
            total_moved: 0,
            folders_created: 0,
            extension_map: Vec::new(),
            errors: Vec::new(),
            created: Vec::new(),
        };
        assert(r.map_view() =~= Seq::<BucketView>::empty());
        assert(names(r.created@) =~= Seq::<Seq<char>>::empty());
        r
    }

    /// Whether the output directory is needed: only a run with files makes it.
    pub fn needs_output_directory(&self) -> (r: bool)
        ensures
            r == (self.files@.len() > 0),
    {
        self.files.len() > 0
    }

    /// The progress to report before the current file is acted on: its
    /// position, counted from one, and the number of files; `None` once every
    /// file is processed.
    pub fn progress(&self) -> (r: Option<(usize, usize)>)
        requires
            self.wf(),
        ensures
            self.next < self.files@.len() ==> r == Some(((self.next + 1) as usize, self.files@.len() as usize)),
            self.next >= self.files@.len() ==> r is None,
    {
        if self.next < self.files.len() {
            Some((self.next + 1, self.files.len()))
        } else {
            None
        }
    }

    /// The bucket of the current file.
    pub fn current_bucket_name(&self) -> (r: String)
        requires
            self.next < self.files@.len(),
        ensures
            r@ == self.current_bucket(),
    {
        bucket_name(self.files[self.next].name.as_str())
    }

    /// Takes in what became of the current file's bucket directory and whether
    /// its destination name is taken, and says whether the move or copy is
    /// to be performed. A bucket that could not be created is an error, and
    /// so is a taken destination: the file is then skipped. A bucket reported
    /// created counts as a created folder the first time only. Outside the
    /// point where a file awaits admission nothing changes.
    pub fn authorize(&mut self, status: BucketStatus, destination_taken: bool) -> (r: bool)
        requires
            old(self).wf(),
        ensures
            final(self).wf(),
            final(self).mode == old(self).mode,
            final(self).files == old(self).files,
            final(self).map_view() == old(self).map_view(),
            final(self).total_moved == old(self).total_moved,
            !old(self).awaits_admission() ==> !r && *final(self) == *old(self),
            old(self).awaits_admission() ==> ({
                let b = old(self).current_bucket();
                let name = old(self).current_name();
                let made = names(old(self).created@);
                match status {
                    BucketStatus::CreateFailed(d) => {
                        &&& !r
                        &&& !final(self).admitted
                        &&& final(self).next == old(self).next + 1
                        &&& names(final(self).errors@) == names(old(self).errors@).push(bucket_error(b, d@))
                        &&& final(self).created == old(self).created
                        &&& final(self).folders_created == old(self).folders_created
                    },
                    _ => {
                        let c = if status is Created && !made.contains(b) {
                            made.push(b)
                        } else {
                            made
                        };
                        &&& names(final(self).created@) == c
                        &&& final(self).folders_created == c.len()
                        &&& r == !destination_taken
                        &&& final(self).admitted == r
                        &&& destination_taken ==> final(self).next == old(self).next + 1
                            && names(final(self).errors@) == names(old(self).errors@).push(
                            place_error(name, collision_detail()),
                        )
                        &&& !destination_taken ==> final(self).next == old(self).next
                            && final(self).errors == old(self).errors
                    },
                }
            }),
    {
        if self.next >= self.files.len() || self.admitted {
            return false;
        }
        let bucket = bucket_name(self.files[self.next].name.as_str());
        let ghost errs = names(self.errors@);
        let ghost made = names(self.created@);
        let ghost fnames = self.file_names();
        match status {
            BucketStatus::CreateFailed(d) => {
                let e = error_text("Error al crear carpeta ", bucket.as_str(), d.as_str());
                self.errors.push(e);
                assert(names(self.errors@) =~= errs.push(e@));
                self.next = self.next + 1;
                assert(self.file_names() == fnames);
                false
            },
            _ => {
                if matches!(status, BucketStatus::Created) {
                    let mut seen = false;
                    let mut i: usize = 0;
                    while i < self.created.len()
                        invariant
                            i <= self.created@.len(),
                            made == names(self.created@),
                            seen == (exists|j: int| 0 <= j < i && made[j] == bucket@),
                        decreases self.created.len() - i,
                    {
                        assert(made[i as int] == self.created@[i as int]@);
                        if self.created[i] == bucket {
                            seen = true;
                        }
                        i = i + 1;
                    }
                    if !seen {
                        self.created.push(bucket.clone());
                        assert(names(self.created@) =~= made.push(bucket@));
                        assert(!made.contains(bucket@));
                        assert(made.push(bucket@).no_duplicates()) by {
                            assert forall|x: int, y: int|
                                0 <= x < y < made.len() + 1 implies made.push(bucket@)[x] != made.push(bucket@)[y] by {
                                if y == made.len() {
                                    assert(made[x] == made.push(bucket@)[x]);
                                }
                            }
                        }
                        self.folders_created = self.folders_created + 1;
                    } else {
                        assert(made.contains(bucket@));
                    }
                }
                if destination_taken {
                    let e = error_text("Error al mover ", self.files[self.next].name.as_str(), "el destino ya existe");
                    self.errors.push(e);
                    assert(names(self.errors@) =~= errs.push(e@));
                    self.next = self.next + 1;
                    assert(self.file_names() == fnames);
                    false
                } else {
                    self.admitted = true;
                    assert(self.file_names() == fnames);
                    true
                }
            },
        }
    }

    /// Takes in the outcome of the move or copy of the current file: on
    /// success the file's base name joins its bucket, else the error is
    /// recorded and the source stays where it was. Either way the run goes on
    /// to the next file. Where no operation is under way nothing changes.
    pub fn complete(&mut self, outcome: Result<(), String>)
        requires
            old(self).wf(),
        ensures
            final(self).wf(),
            final(self).mode == old(self).mode,
            final(self).files == old(self).files,
            final(self).created == old(self).created,
            final(self).folders_created == old(self).folders_created,
            !old(self).admitted ==> *final(self) == *old(self),
            old(self).admitted ==> {
                &&& final(self).next == old(self).next + 1
                &&& !final(self).admitted
                &&& match outcome {
                    Ok(()) => {
                        &&& final(self).map_view() == add_file(
                            old(self).map_view(),
                            old(self).current_bucket(),
                            old(self).current_name(),
                        )
                        &&& final(self).total_moved == old(self).total_moved + 1
                        &&& final(self).errors == old(self).errors
                    },
                    Err(d) => {
                        &&& names(final(self).errors@) == names(old(self).errors@).push(
                            place_error(old(self).current_name(), d@),
                        )
                        &&& final(self).map_view() == old(self).map_view()
                        &&& final(self).total_moved == old(self).total_moved
                    },
                }
            },
    {
        if !self.admitted || self.next >= self.files.len() {
            return;
        }
        let ghost errs = names(self.errors@);
        let ghost fnames = self.file_names();
        let ghost mv = self.map_view();
        let ghost name = self.current_name();
        let ghost b = self.current_bucket();
        match outcome {
            Ok(()) => {
                let bucket = bucket_name(self.files[self.next].name.as_str());
                let name_copy = self.files[self.next].name.clone();
                proof {
                    lemma_add_file(mv, b, name);
                    lemma_find_bucket(mv, b);
                    assert(fnames[self.next as int] == name);
                }
                place(&mut self.extension_map, bucket, name_copy);
                let ghost nv = self.map_view();
                assert forall|i: int, j: int|
                    0 <= i < nv.len() && 0 <= j < nv[i].1.len() implies fnames.contains(
                    #[trigger] nv[i].1[j],
                ) by {
                    let k = find_bucket(mv, b);
                    if k >= 0 && i == k {
                        if j < mv[i].1.len() {
                            assert(nv[i].1[j] == mv[i].1[j]);
                        }
                    } else if i < mv.len() {
                        assert(nv[i] == mv[i]);
                    }
                }
                self.total_moved = self.total_moved + 1;
            },
            Err(d) => {
                let e = error_text("Error al mover ", self.files[self.next].name.as_str(), d.as_str());
                self.errors.push(e);
                assert(names(self.errors@) =~= errs.push(e@));
            },
        }
        self.next = self.next + 1;
        self.admitted = false;
        assert(self.file_names() == fnames);
    }

    /// The result of a run that has processed every file: its counts, buckets
    /// and errors, with the summary. A run without files gives the empty
    /// result.
    pub fn finish(self) -> (r: OrganizerResult)
        requires
            self.wf(),
            self.next == self.files@.len(),
        ensures
            r.wf(),
            self.files@.len() == 0 ==> r.is_empty_result(),
            self.files@.len() > 0 ==> {
                &&& r.total_moved == self.total_moved
                &&& r.folders_created == self.folders_created
                &&& r.map_view() == self.map_view()
                &&& r.summary@ == summary_text(
                    self.mode,
                    self.total_moved as nat,
                    self.folders_created as nat,
                    self.map_view(),
                )
                &&& self.errors@.len() == 0 ==> r.errors is None
                &&& self.errors@.len() > 0 ==> (r.errors matches Some(e) && e == self.errors)
            },
    {
        if self.files.len() == 0 {
            return OrganizerResult::empty();
        }
        let summary = FileOrganizerCore::create_organization_summary(
            &self.extension_map,
            self.total_moved,
            self.folders_created,
            self.mode,
        );
        let errors = if self.errors.len() == 0 {
            None
        } else {
            Some(self.errors)
        };
        OrganizerResult {
            total_moved: self.total_moved,
            folders_created: self.folders_created,
            extension_map: self.extension_map,
            summary,
            errors,
        }
    }
}

/// Each bucket directory that a run created is counted once, however many
/// files land in it: the count is the number of distinct buckets created.
pub proof fn lemma_folders_counted_once(run: OrganizeRun)
    requires
        run.wf(),
    ensures
        run.folders_created == run.created@.len(),
        names(run.created@).no_duplicates(),
{
}

/// Only files of the run reach a bucket: where every file of the run passes
/// the exclusion test, so does every name placed in a bucket.
pub proof fn lemma_excluded_never_placed(run: OrganizeRun, ex: Seq<Seq<char>>)
    requires
        run.wf(),
        forall|k: int| 0 <= k < run.files@.len() ==> admitted(#[trigger] run.files@[k].name@, ex),
    ensures
        forall|i: int, j: int|
            0 <= i < run.map_view().len() && 0 <= j < run.map_view()[i].1.len() ==> admitted(
                #[trigger] run.map_view()[i].1[j],
                ex,
            ),
{
    assert forall|i: int, j: int|
        0 <= i < run.map_view().len() && 0 <= j < run.map_view()[i].1.len() implies admitted(
        #[trigger] run.map_view()[i].1[j],
        ex,
    ) by {
        let x = run.map_view()[i].1[j];
        assert(run.file_names().contains(x));
        let k = choose|k: int| 0 <= k < run.file_names().len() && run.file_names()[k] == x;
        assert(run.file_names()[k] == run.files@[k].name@);
    }
}

} // verus!
