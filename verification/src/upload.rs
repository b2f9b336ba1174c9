use crate::store::lemma_last_write_wins;
use crate::store::store_write;
use crate::store::DirectoryModel;
use vstd::prelude::*;
use vstd::string::StringExecFns;

verus! {

/// The name a part is stored under when it declares none.
pub open spec fn default_filename() -> Seq<char> {
    "photo.png"@
}

/// The directory every uploaded file is written into, as a path prefix.
pub open spec fn upload_dir_prefix() -> Seq<char> {
    "uploads_test/"@
}

/// The filename a part is stored under: its declared filename when it has
/// one, the fixed default name otherwise.
pub fn target_filename(declared: &Option<String>) -> (r: String)
    ensures
        match declared {
            Some(name) => r@ == name@,
            None => r@ == default_filename(),
        },
{
    match declared {
        Some(name) => name.clone(),
        None => "photo.png".to_owned(),
    }
}

/// The full path a file named `filename` is written to: the upload
/// directory prefix followed by the name.
pub fn upload_path(filename: &str) -> (r: String)
    ensures
        r@ == upload_dir_prefix() + filename@,
{
    let mut path = "uploads_test/".to_owned();
    path.append(filename);
    path
}

/// A part's bytes arrive as a stream of chunks; the stored file holds
/// their concatenation, in arrival order.
pub fn concat_chunks(chunks: &Vec<Vec<u8>>) -> (r: Vec<u8>)
    ensures
        r@ == chunks.deep_view().flatten(),
{
    broadcast use vstd::seq_lib::group_seq_properties;

    let mut out: Vec<u8> = Vec::new();
    let mut i: usize = 0;
    while i < chunks.len()
        invariant
            i <= chunks.len(),
            out@ == chunks.deep_view().take(i as int).flatten(),
        decreases chunks.len() - i,
    {
        let chunk = &chunks[i];
        let mut j: usize = 0;
        while j < chunk.len()
            invariant
                j <= chunk.len(),
                i < chunks.len(),
                chunk == chunks[i as int],
                out@ == chunks.deep_view().take(i as int).flatten() + chunk@.take(j as int),
            decreases chunk.len() - j,
        {
            out.push(chunk[j]);
            j += 1;
        }
        proof {
            assert(chunk@.take(j as int) =~= chunks.deep_view()[i as int]);
            assert(chunks.deep_view().take(i as int).push(chunks.deep_view()[i as int])
                =~= chunks.deep_view().take(i + 1));
            Seq::lemma_flatten_push(
                chunks.deep_view().take(i as int),
                chunks.deep_view()[i as int],
            );
        }
        i += 1;
    }
    proof {
        assert(chunks.deep_view().take(chunks@.len() as int) =~= chunks.deep_view());
    }
    out
}

/// One file write the background task must perform: the destination path
/// and the bytes to store there.
pub struct WriteCommand {
    pub path: String,
    pub contents: Vec<u8>,
}

impl WriteCommand {
    /// The command stores `contents` under `filename` in the upload
    /// directory.
    pub open spec fn is_store(&self, filename: Seq<char>, contents: Seq<u8>) -> bool {
        &&& self.path@ == upload_dir_prefix() + filename
        &&& self.contents@ == contents
    }
}

/// Plans the write for one multipart part: the file goes into the upload
/// directory under the part's declared filename (or the default name when
/// it declares none), and holds the concatenation of the part's chunks.
pub fn plan_part(declared: &Option<String>, chunks: &Vec<Vec<u8>>) -> (cmd: WriteCommand)
    ensures
        match declared {
            Some(name) => cmd.is_store(name@, chunks.deep_view().flatten()),
            None => cmd.is_store(default_filename(), chunks.deep_view().flatten()),
        },
{
    let filename = target_filename(declared);
    let path = upload_path(filename.as_str());
    let contents = concat_chunks(chunks);
    WriteCommand { path, contents }
}

/// One part of a multipart form as the background task sees it: an
/// optional declared filename and the byte chunks of its stream.
pub struct UploadPart {
    pub filename: Option<String>,
    pub chunks: Vec<Vec<u8>>,
}

/// The path a part is stored under.
pub open spec fn part_path(p: UploadPart) -> Seq<char> {
    match p.filename {
        Some(name) => upload_dir_prefix() + name@,
        None => upload_dir_prefix() + default_filename(),
    }
}

/// The bytes a part stores: its chunks concatenated in arrival order.
pub open spec fn part_bytes(p: UploadPart) -> Seq<u8> {
    p.chunks.deep_view().flatten()
}

/// The directory state after the parts of one upload are stored in
/// arrival order, starting from `files`.
pub open spec fn apply_parts(files: Map<Seq<char>, Seq<u8>>, parts: Seq<UploadPart>) -> Map<
    Seq<char>,
    Seq<u8>,
>
    decreases parts.len(),
{
    if parts.len() == 0 {
        files
    } else {
        store_write(
            apply_parts(files, parts.drop_last()),
            part_path(parts.last()),
            part_bytes(parts.last()),
        )
    }
}

/// Two sequential single-part uploads that target the same filename
/// leave exactly the second upload's bytes there: no merge, no
/// versioning, whatever the first upload stored.
pub proof fn lemma_sequential_uploads_last_wins(
    files: Map<Seq<char>, Seq<u8>>,
    first: UploadPart,
    second: UploadPart,
)
    requires
        part_path(first) == part_path(second),
    ensures
        apply_parts(apply_parts(files, seq![first]), seq![second]) == apply_parts(
            files,
            seq![second],
        ),
        apply_parts(apply_parts(files, seq![first]), seq![second])[part_path(second)]
            == part_bytes(second),
{
    let once = apply_parts(files, seq![first]);
    assert(apply_parts(files, Seq::<UploadPart>::empty()) == files);
    assert(seq![first].drop_last() =~= Seq::<UploadPart>::empty());
    assert(seq![second].drop_last() =~= Seq::<UploadPart>::empty());
    assert(seq![first].last() == first);
    assert(seq![second].last() == second);
    assert(once == store_write(files, part_path(first), part_bytes(first)));
    assert(apply_parts(once, Seq::<UploadPart>::empty()) == once);
    assert(apply_parts(once, seq![second]) == store_write(
        once,
        part_path(second),
        part_bytes(second),
    ));
    lemma_last_write_wins(files, part_path(second), part_bytes(first), part_bytes(second));
}

/// Re-uploading identical content under the same filename leaves the
/// stored directory byte-identical to what the first upload left.
pub proof fn lemma_reupload_idempotent(files: Map<Seq<char>, Seq<u8>>, part: UploadPart)
    ensures
        apply_parts(apply_parts(files, seq![part]), seq![part]) == apply_parts(files, seq![part]),
{
    lemma_sequential_uploads_last_wins(files, part, part);
}

/// Stores every part of one upload into the directory, in arrival
/// order: the final state is exactly the fold of the parts' writes over
/// the starting state, so an empty form leaves the directory untouched
/// and parts that share a filename overwrite each other sequentially.
pub fn process_upload(dir: &mut DirectoryModel, parts: &Vec<UploadPart>)
    requires
        old(dir).wf(),
    ensures
        final(dir).wf(),
        final(dir)@ == apply_parts(old(dir)@, parts@),
{
    let mut i: usize = 0;
    while i < parts.len()
        invariant
            i <= parts@.len(),
            dir.wf(),
            dir@ == apply_parts(old(dir)@, parts@.take(i as int)),
        decreases parts@.len() - i,
    {
        let part = &parts[i];
        let cmd = plan_part(&part.filename, &part.chunks);
        proof {
            assert(cmd.path@ == part_path(parts@[i as int]));
            assert(cmd.contents@ == part_bytes(parts@[i as int]));
            assert(parts@.take(i + 1).drop_last() =~= parts@.take(i as int));
            assert(parts@.take(i + 1).last() == parts@[i as int]);
        }
        dir.write(cmd.path, cmd.contents);
        i += 1;
    }
    proof {
        assert(parts@.take(parts@.len() as int) =~= parts@);
    }
}

} // verus!
