//! The compound file that holds a container, and the three things this
//! crate asks of it: to open an image, to find an entry, to read a stream.
//!
//! Nothing in this file is proved. The compound file is the `cfb` crate's;
//! what it holds is given names, and the contracts below say how the calls
//! relate to those names. The file lives in memory, over a cursor on
//! its bytes, and is only ever read: what a call returns depends on the file
//! and the path alone.

use crate::types::Auid;
use vstd::prelude::*;

verus! {

/// `cfb::CompoundFile`, carried as an opaque value.
#[verifier::external_type_specification]
#[verifier::external_body]
#[verifier::reject_recursive_types(F)]
pub struct ExCompoundFile<F>(cfb::CompoundFile<F>);

/// `std::io::Cursor`, carried as an opaque value.
#[verifier::external_type_specification]
#[verifier::external_body]
#[verifier::reject_recursive_types(T)]
pub struct ExCursor<T>(std::io::Cursor<T>);

/// The streams of a compound file: for each path at which `open_stream`
/// finds a stream that can be read to its end, the bytes of that stream.
pub uninterp spec fn storage_streams(f: cfb::CompoundFile<std::io::Cursor<Vec<u8>>>) -> Map<
    Seq<char>,
    Seq<u8>,
>;

/// The entries of a compound file: for each path at which `entry` finds a
/// stream or a storage, the sixteen bytes of the entry's class identifier and
/// the path under which the entry reports itself.
pub uninterp spec fn storage_entries(f: cfb::CompoundFile<std::io::Cursor<Vec<u8>>>) -> Map<
    Seq<char>,
    (Seq<u8>, Seq<char>),
>;

/// What the image of a compound file holds: its streams and its entries, or
/// `None` where the bytes are no compound file that `open` accepts.
pub uninterp spec fn image_contents(bytes: Seq<u8>) -> Option<
    (Map<Seq<char>, Seq<u8>>, Map<Seq<char>, (Seq<u8>, Seq<char>)>),
>;

/// `cfb::CompoundFile::open` on a cursor over `bytes`: the compound file
/// that the bytes hold, or nothing where the outside function reports an
/// error. Which bytes it accepts, and what the file then holds, depends on
/// the bytes alone; the contract gives both a name and says no more of them.
#[verifier::external_body]
pub(crate) fn open_image(bytes: Vec<u8>) -> (r: Option<cfb::CompoundFile<std::io::Cursor<Vec<u8>>>>)
    ensures
        match r {
            Some(f) => image_contents(bytes@) == Some((storage_streams(f), storage_entries(f))),
            None => image_contents(bytes@) is None,
        },
{
    cfb::CompoundFile::open(std::io::Cursor::new(bytes)).ok()
}

/// `cfb::CompoundFile::entry`, with `Entry::clsid` and `Entry::path` of what
/// it returns: the class identifier and the path of the entry at `path`, or
/// nothing where the outside function reports an error. The lookup reads the
/// directory that was loaded when the file was opened, so equal paths give
/// equal answers.
#[verifier::external_body]
pub(crate) fn find_entry(f: &cfb::CompoundFile<std::io::Cursor<Vec<u8>>>, path: &str) -> (r: Option<
    (Auid, String),
>)
    ensures
        match r {
            Some((auid, entry_path)) => storage_entries(*f).dom().contains(path@)
                && storage_entries(*f)[path@] == (auid.bytes@, entry_path@),
            None => !storage_entries(*f).dom().contains(path@),
        },
{
    let entry = f.entry(path).ok()?;
    Some((Auid { bytes: entry.clsid().into_bytes() }, entry.path().to_string_lossy().into_owned()))
}

/// `cfb::CompoundFile::open_stream`, then `read_to_end` on the stream: all
/// bytes of the stream at `path`, or nothing where either outside function
/// reports an error. Reading writes nothing, so the file holds afterwards
/// what it held before. The contract takes memory to suffice for the bytes:
/// the outside function also reports an error where it cannot reserve it.
#[verifier::external_body]
pub(crate) fn read_stream(f: &mut cfb::CompoundFile<std::io::Cursor<Vec<u8>>>, path: &str) -> (r:
    Option<Vec<u8>>)
    ensures
        storage_streams(*final(f)) == storage_streams(*old(f)),
        storage_entries(*final(f)) == storage_entries(*old(f)),
        match r {
            Some(bytes) => storage_streams(*old(f)).dom().contains(path@) && storage_streams(
                *old(f),
            )[path@] == bytes@,
            None => !storage_streams(*old(f)).dom().contains(path@),
        },
{
    let mut stream = f.open_stream(path).ok()?;
    let mut bytes: Vec<u8> = Vec::new();
    std::io::Read::read_to_end(&mut stream, &mut bytes).ok()?;
    Some(bytes)
}

} // verus!
