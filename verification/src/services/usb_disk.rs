//! Programs from removable media: which directories hold a program and
//! when one is loaded.

use crate::text::ends_with;
use crate::text::has_suffix;
use crate::text::str_eq;
use vstd::prelude::*;
use vstd::string::*;
use vstd::utf8::*;

verus! {

/// The seconds between two scans for removable media.
pub const SCAN_INTERVAL_SECS: u64 = 5;

/// The watch for removable media with programs.
pub struct UsbDiskService {
    last_seen: Option<String>,
}

/// A directory and the names of the files in it.
#[derive(Debug, Clone)]
pub struct DirListing {
    pub path: String,
    pub files: Vec<String>,
}

/// Why a medium yields no program.
#[derive(Debug, Clone, Copy, PartialEq, Eq, Structural)]
pub enum UsbError {
    /// The medium holds no XML file.
    NoProgramFiles,
}

/// Whether a file name has the extension `xml`: it ends in `.xml` behind
/// at least one more character.
pub open spec fn is_xml_name(name: Seq<char>) -> bool {
    encode_utf8(name).len() >= 5 && has_suffix(encode_utf8(name), ".xml".spec_bytes())
}

/// The names with the extension `xml`, in order.
pub open spec fn xml_names(names: Seq<String>) -> Seq<Seq<char>>
    decreases names.len(),
{
    if names.len() == 0 {
        Seq::empty()
    } else if is_xml_name(names.last()@) {
        xml_names(names.drop_last()).push(names.last()@)
    } else {
        xml_names(names.drop_last())
    }
}

/// Whether a directory holds a program: one of its files has the extension
/// `xml`.
pub open spec fn holds_program(files: Seq<String>) -> bool {
    xml_names(files).len() > 0
}

/// The paths of the directories that hold a program, in order.
pub open spec fn program_paths(listings: Seq<DirListing>) -> Seq<Seq<char>>
    decreases listings.len(),
{
    if listings.len() == 0 {
        Seq::empty()
    } else if holds_program(listings.last().files@) {
        program_paths(listings.drop_last()).push(listings.last().path@)
    } else {
        program_paths(listings.drop_last())
    }
}

/// Whether a file name has the extension `xml`.
pub fn has_xml_extension(name: &str) -> (r: bool)
    ensures
        r == is_xml_name(name@),
{
    let bytes = name.as_bytes();
    bytes.len() >= 5 && ends_with(bytes, ".xml".as_bytes())
}

/// The program files of a medium: the names with the extension `xml`, in
/// order. A medium without any yields no program.
pub fn load_from_usb(names: &Vec<String>) -> (r: Result<Vec<String>, UsbError>)
    ensures
        xml_names(names@).len() == 0 ==> r == Err::<Vec<String>, UsbError>(
            UsbError::NoProgramFiles,
        ),
        xml_names(names@).len() > 0 ==> (r matches Ok(files) && files.deep_view() == xml_names(
            names@,
        )),
{
    let n: usize = names.len();
    let mut files: Vec<String> = Vec::new();
    let mut i: usize = 0;
    assert(files.deep_view() =~= xml_names(names@.take(0)));
    while i < n
        invariant
            i <= n,
            n == names@.len(),
            files.deep_view() == xml_names(names@.take(i as int)),
        decreases n - i,
    {
        let ghost before = files.deep_view();
        proof {
            assert(names@.take(i + 1).drop_last() =~= names@.take(i as int));
            assert(names@.take(i + 1).last() == names@[i as int]);
        }
        if has_xml_extension(names[i].as_str()) {
            files.push(names[i].clone());
            assert(files.deep_view() =~= before.push(names@[i as int]@));
        }
        i += 1;
    }
    assert(names@.take(n as int) =~= names@);
    if files.len() == 0 {
        Err(UsbError::NoProgramFiles)
    } else {
        Ok(files)
    }
}

/// The mount points under which removable media appear.
pub fn mount_points() -> (r: Vec<String>)
    ensures
        r.deep_view() == seq![
            "/mnt/usb"@,
            "/media/usb"@,
            "/media/usb0"@,
            "/run/media"@,
            "/mnt/sdcard"@,
        ],
{
    let mut r: Vec<String> = Vec::new();
    r.push("/mnt/usb".to_owned());
    r.push("/media/usb".to_owned());
    r.push("/media/usb0".to_owned());
    r.push("/run/media".to_owned());
    r.push("/mnt/sdcard".to_owned());
    assert(r.deep_view() =~= seq![
        "/mnt/usb"@,
        "/media/usb"@,
        "/media/usb0"@,
        "/run/media"@,
        "/mnt/sdcard"@,
    ]);
    r
}

/// The directories that hold a program, among the directories found under
/// the mount points.
pub fn find_usb_program_paths(listings: &Vec<DirListing>) -> (paths: Vec<String>)
    ensures
        paths.deep_view() == program_paths(listings@),
{
    let n: usize = listings.len();
    let mut paths: Vec<String> = Vec::new();
    let mut i: usize = 0;
    assert(paths.deep_view() =~= program_paths(listings@.take(0)));
    while i < n
        invariant
            i <= n,
            n == listings@.len(),
            paths.deep_view() == program_paths(listings@.take(i as int)),
        decreases n - i,
    {
        let ghost before = paths.deep_view();
        proof {
            assert(listings@.take(i + 1).drop_last() =~= listings@.take(i as int));
            assert(listings@.take(i + 1).last() == listings@[i as int]);
        }
        let found = load_from_usb(&listings[i].files);
        if found.is_ok() {
            paths.push(listings[i].path.clone());
            assert(paths.deep_view() =~= before.push(listings@[i as int].path@));
        }
        i += 1;
    }
    assert(listings@.take(n as int) =~= listings@);
    paths
}

impl UsbDiskService {
    /// The medium that was loaded last and is still there.
    pub closed spec fn seen(&self) -> Option<Seq<char>> {
        match self.last_seen {
            Some(path) => Some(path@),
            None => None,
        }
    }

    /// A watch that has seen no medium.
    pub fn new() -> (s: UsbDiskService)
        ensures
            s.seen() is None,
    {
        UsbDiskService { last_seen: None }
    }

    /// Whether a medium that was found is to be loaded: it is not the one
    /// that was loaded last.
    pub fn should_load(&self, path: &str) -> (r: bool)
        ensures
            r == (self.seen() != Some(path@)),
    {
        match &self.last_seen {
            Some(last) => !str_eq(last.as_str(), path),
            None => true,
        }
    }

    /// Takes note that a medium was loaded.
    pub fn loaded(&mut self, path: String)
        ensures
            final(self).seen() == Some(path@),
    {
        self.last_seen = Some(path);
    }

    /// Takes note of a scan that found `found` media: when none is there
    /// any more, the one loaded last is forgotten.
    pub fn scanned(&mut self, found: usize)
        ensures
            final(self).seen() == (if found == 0 {
                None
            } else {
                old(self).seen()
            }),
    {
        if found == 0 {
            self.last_seen = None;
        }
    }
}

} // verus!
