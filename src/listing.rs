//! A plain listing of what a path holds, for display.
use vstd::prelude::*;
use vstd::string::*;
use crate::text::{names, decimal, push_decimal};
use crate::engine::FileOrganizerCore;

verus! {

/// One entry of a directory as the file system described it.
pub struct EntryDescription {
    /// The base name, where it has one.
    pub name: Option<String>,
    pub is_dir: bool,
    /// The size in bytes of a file, where it could be read.
    pub size: Option<u64>,
}

/// What a path turned out to be.
pub enum PathProbe {
    /// Nothing exists there.
    Missing,
    /// A file, with its base name where it has one, and its size (zero where
    /// it could not be read).
    File { name: Option<String>, size: u64 },
    /// A directory: its entries in the order listed, each read or failed with
    /// a reason, or the reason the directory could not be read.
    Directory(Result<Vec<Result<EntryDescription, String>>, String>),
    /// Something that is neither file nor directory.
    Unusable,
}

/// Lexicographic order of character sequences by code point.
pub open spec fn lex_le(a: Seq<char>, b: Seq<char>) -> bool
    decreases a.len(),
{
    if a.len() == 0 {
        true
    } else if b.len() == 0 {
        false
    } else if a[0] != b[0] {
        (a[0] as u32) < (b[0] as u32)
    } else {
        lex_le(a.drop_first(), b.drop_first())
    }
}

/// Each element is at most the next one.
pub open spec fn sorted_lines(s: Seq<Seq<char>>) -> bool {
    forall|i: int| 0 <= i < s.len() - 1 ==> lex_le(#[trigger] s[i], s[i + 1])
}

/// Relies on `slice::sort` for `String`: a stable sort under `Ord` for `str`,
/// which orders strings lexicographically by their bytes, that is by code
/// point.
#[verifier::external_body]
fn sort_lines(v: &mut Vec<String>)
    ensures
        names(final(v)@).to_multiset() == names(old(v)@).to_multiset(),
        sorted_lines(names(final(v)@)),
{
    v.sort();
}

/// The line of a file in a listing.
pub open spec fn file_line(name: Option<Seq<char>>, size: nat) -> Seq<char> {
    match name {
        Some(n) => "Archivo "@ + n + " ("@ + decimal(size) + " bytes)"@,
        None => "Archivo sin nombre"@,
    }
}

/// The line of a directory entry in a listing.
pub open spec fn entry_line(e: Result<(Option<Seq<char>>, bool, Option<nat>), Seq<char>>) -> Seq<char> {
    match e {
        Ok((name, is_dir, size)) => {
            let n = match name {
                Some(n) => n,
                None => "sin_nombre"@,
            };
            if is_dir {
                "[DIR]  "@ + n
            } else {
                match size {
                    Some(z) => "[FILE] "@ + n + " ("@ + decimal(z) + " bytes)"@,
                    None => "[FILE] "@ + n,
                }
            }
        },
        Err(reason) => "Error leyendo entrada: "@ + reason,
    }
}

impl EntryDescription {
    pub open spec fn view(&self) -> (Option<Seq<char>>, bool, Option<nat>) {
        (
            match self.name {
                Some(n) => Some(n@),
                None => None,
            },
            self.is_dir,
            match self.size {
                Some(z) => Some(z as nat),
                None => None,
            },
        )
    }
}

/// The view of one listed entry.
pub open spec fn entry_view(e: Result<EntryDescription, String>) -> Result<
    (Option<Seq<char>>, bool, Option<nat>),
    Seq<char>,
> {
    match e {
        Ok(d) => Ok(d.view()),
        Err(r) => Err(r@),
    }
}

/// The lines of a directory's entries, in the order listed.
pub open spec fn entry_lines(es: Seq<Result<EntryDescription, String>>) -> Seq<Seq<char>> {
    es.map_values(|e: Result<EntryDescription, String>| entry_line(entry_view(e)))
}

fn describe_entry(e: &Result<EntryDescription, String>) -> (r: String)
    ensures
        r@ == entry_line(entry_view(*e)),
{
    match e {
        Ok(d) => {
            let mut s = if d.is_dir {
                String::from_str("[DIR]  ")
            } else {
                String::from_str("[FILE] ")
            };
            match &d.name {
                Some(n) => s.append(n.as_str()),
                None => s.append("sin_nombre"),
            }
            if !d.is_dir {
                if let Some(z) = d.size {
                    s.append(" (");
                    push_decimal(&mut s, z);
                    s.append(" bytes)");
                }
            }
            s
        },
        Err(reason) => {
            let mut s = String::from_str("Error leyendo entrada: ");
            s.append(reason.as_str());
            s
        },
    }
}

impl FileOrganizerCore {
    /// What `path` holds, as lines for display: for a file one line with its
    /// name and size; for a directory one line per entry, marked as directory
    /// or file, with sizes of files, sorted. A missing path, an unreadable
    /// directory and a path that is neither file nor directory are errors.
    pub fn list_files_in_path(path: &str, probe: PathProbe) -> (r: Result<Vec<String>, String>)
        ensures
            probe is Missing ==> (r matches Err(e) && e@ == "La ruta '"@ + path@ + "' no existe"@),
            probe is Unusable ==> (r matches Err(e) && e@ == "Ruta no válida"@),
            probe matches PathProbe::File { name, size } ==> (r matches Ok(v) && names(v@) == seq![
                file_line(
                    match name {
                        Some(n) => Some(n@),
                        None => None,
                    },
                    size as nat,
                ),
            ]),
            probe matches PathProbe::Directory(Err(reason)) ==> (r matches Err(e) && e@
                == "Error al leer el directorio: "@ + reason@),
            probe matches PathProbe::Directory(Ok(es)) ==> (r matches Ok(v) && sorted_lines(names(v@))
                && names(v@).to_multiset() == entry_lines(es@).to_multiset()),
    {
        match probe {
            PathProbe::Missing => {
                let mut e = String::from_str("La ruta '");
                e.append(path);
                e.append("' no existe");
                Err(e)
            },
            PathProbe::Unusable => Err(String::from_str("Ruta no válida")),
            PathProbe::File { name, size } => {
                let line = match name {
                    Some(n) => {
                        let mut s = String::from_str("Archivo ");
                        s.append(n.as_str());
                        s.append(" (");
                        push_decimal(&mut s, size);
                        s.append(" bytes)");
                        s
                    },
                    None => String::from_str("Archivo sin nombre"),
                };
                let mut v: Vec<String> = Vec::new();
                v.push(line);
                assert(names(v@) =~= seq![line@]);
                Ok(v)
            },
            PathProbe::Directory(Err(reason)) => {
                let mut e = String::from_str("Error al leer el directorio: ");
                e.append(reason.as_str());
                Err(e)
            },
            PathProbe::Directory(Ok(es)) => {
                let mut lines: Vec<String> = Vec::new();
                let mut i: usize = 0;
                while i < es.len()
                    invariant
                        i <= es@.len(),
                        names(lines@) == entry_lines(es@.subrange(0, i as int)),
                    decreases es.len() - i,
                {
                    let line = describe_entry(&es[i]);
                    let ghost before = names(lines@);
                    lines.push(line);
                    assert(names(lines@) =~= before.push(line@));
                    assert(entry_lines(es@.subrange(0, i + 1)) =~= entry_lines(es@.subrange(0, i as int)).push(
                        entry_line(entry_view(es@[i as int])),
                    ));
                    i = i + 1;
                }
                assert(es@.subrange(0, es.len() as int) =~= es@);
                sort_lines(&mut lines);
                Ok(lines)
            },
        }
    }
}

} // verus!
