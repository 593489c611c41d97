use flate2::write::GzEncoder;
use flate2::Compression;
use std::io::Write;
use uuid::Uuid;
use vstd::prelude::*;
use vstd::string::StringExecFns;
use vstd::utf8::encode_utf8;

verus! {

/// What flate2's `GzEncoder` writes for a byte string at the default level.
pub uninterp spec fn gzip_of(data: Seq<u8>) -> Seq<u8>;

/// Relies on flate2's `GzEncoder::new`, `write_all` and `finish` at the default level:
/// the header carries no time stamp, so the stream depends on the bytes alone. The
/// encoder fails only when its writer fails, and writing into a `Vec` never does.
#[verifier::external_body]
fn gzip(data: &[u8]) -> (r: Vec<u8>)
    ensures
        r@ == gzip_of(data@),
{
    let mut e = GzEncoder::new(Vec::new(), Compression::default());
    e.write_all(data).expect("writing into memory does not fail");
    e.finish().expect("writing into memory does not fail")
}

/// The file name under which a saved object named `file` is stored.
pub open spec fn save_file_name(file: Seq<char>) -> Seq<char> {
    file + ".yaml.gz"@
}

/// A set of serialized objects, each under a file name, saved together.
#[derive(Debug)]
pub struct SaveGame {
    objects: Vec<(String, String)>,
    pub uuidv4: Uuid,
}

impl SaveGame {
    pub closed spec fn objects_spec(&self) -> Seq<(String, String)> {
        self.objects@
    }

    /// A save of the `(file name, serialized text)` pairs, with a fresh random id.
    pub fn new(objects: Vec<(String, String)>) -> (r: SaveGame)
        ensures
            r.objects_spec() == objects@,
    {
        SaveGame { objects, uuidv4: Uuid::new_v4() }
    }

    pub fn objects(&self) -> (r: &Vec<(String, String)>)
        ensures
            r@ == self.objects_spec(),
    {
        &self.objects
    }

    /// The files to write: for each object in order, its file name with the
    /// `.yaml.gz` suffix and its text, as UTF-8 bytes, compressed with gzip.
    pub fn encoded(&self) -> (r: Vec<(String, Vec<u8>)>)
        ensures
            r@.len() == self.objects_spec().len(),
            forall|i: int|
                0 <= i < r@.len() ==> (#[trigger] r@[i]).0@ == save_file_name(
                    self.objects_spec()[i].0@,
                ) && r@[i].1@ == gzip_of(encode_utf8(self.objects_spec()[i].1@)),
    {
        let mut out: Vec<(String, Vec<u8>)> = Vec::new();
        let n = self.objects.len();
        let mut i: usize = 0;
        while i < n
            invariant
                n == self.objects@.len(),
                0 <= i <= n,
                out@.len() == i,
                forall|k: int|
                    0 <= k < i ==> (#[trigger] out@[k]).0@ == save_file_name(self.objects@[k].0@)
                        && out@[k].1@ == gzip_of(encode_utf8(self.objects@[k].1@)),
            decreases n - i,
        {
            let (file, data) = &self.objects[i];
            let bytes = gzip(data.as_str().as_bytes());
            let name = file.clone().concat(".yaml.gz");
            out.push((name, bytes));
            i = i + 1;
        }
        out
    }
}

} // verus!
