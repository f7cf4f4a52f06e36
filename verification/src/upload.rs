//! Ingestion of multipart uploads: which parts become files, under which
//! names, and what the upload directory holds afterwards.
//!
//! A part with no file name is skipped; a named part is written under its
//! name verbatim, truncating any file already there, so within one request
//! the last part of a given name wins. The directory is modelled as a map
//! from file names to byte contents; both the buffered plan and the
//! streaming step decisions are proved against that model.

use vstd::prelude::*;
use vstd::string::StringExecFns;

verus! {

/// One part of a multipart body, fully buffered.
pub struct UploadPart {
    pub file_name: Option<String>,
    pub data: Vec<u8>,
}

/// One file write the ingestor owes: destination name and content.
pub struct FileWrite {
    pub name: String,
    pub data: Vec<u8>,
}

/// `p` carries file name `n`.
pub open spec fn names_file(p: UploadPart, n: Seq<char>) -> bool {
    match p.file_name {
        Some(m) => m@ == n,
        None => false,
    }
}

/// The view of one owed write: name and content.
pub open spec fn write_view(w: FileWrite) -> (Seq<char>, Seq<u8>) {
    (w.name@, w.data@)
}

/// The views of a sequence of owed writes.
pub open spec fn writes_view(ws: Seq<FileWrite>) -> Seq<(Seq<char>, Seq<u8>)> {
    ws.map_values(|w: FileWrite| write_view(w))
}

/// The writes owed for `parts`, in order: one per named part, carrying the
/// part's name and bytes; unnamed parts owe nothing.
pub open spec fn planned_writes(parts: Seq<UploadPart>) -> Seq<(Seq<char>, Seq<u8>)>
    decreases parts.len(),
{
    if parts.len() == 0 {
        Seq::empty()
    } else {
        let rest = planned_writes(parts.drop_last());
        match parts.last().file_name {
            None => rest,
            Some(n) => rest.push((n@, parts.last().data@)),
        }
    }
}

/// The directory contents after performing `ws` in order on a directory
/// holding `dir`: each write stores its bytes under its name, overwriting.
pub open spec fn apply_writes(
    dir: Map<Seq<char>, Seq<u8>>,
    ws: Seq<(Seq<char>, Seq<u8>)>,
) -> Map<Seq<char>, Seq<u8>>
    decreases ws.len(),
{
    if ws.len() == 0 {
        dir
    } else {
        apply_writes(dir, ws.drop_last()).insert(ws.last().0, ws.last().1)
    }
}

/// The directory contents after ingesting `parts` in order into a directory
/// holding `dir`: named parts are stored under their names, unnamed parts
/// are skipped.
pub open spec fn apply_parts(
    dir: Map<Seq<char>, Seq<u8>>,
    parts: Seq<UploadPart>,
) -> Map<Seq<char>, Seq<u8>>
    decreases parts.len(),
{
    if parts.len() == 0 {
        dir
    } else {
        let rest = apply_parts(dir, parts.drop_last());
        match parts.last().file_name {
            None => rest,
            Some(n) => rest.insert(n@, parts.last().data@),
        }
    }
}

/// The set of file names `parts` carries.
pub open spec fn names_of(parts: Seq<UploadPart>) -> Set<Seq<char>>
    decreases parts.len(),
{
    if parts.len() == 0 {
        Set::empty()
    } else {
        let rest = names_of(parts.drop_last());
        match parts.last().file_name {
            None => rest,
            Some(n) => rest.insert(n@),
        }
    }
}

/// The buffered ingest plan for `parts`: the writes owed, in part order.
pub fn plan_uploads(parts: Vec<UploadPart>) -> (ws: Vec<FileWrite>)
    ensures
        writes_view(ws@) == planned_writes(parts@),
{
    let ghost orig = parts@;
    let mut rest = parts;
    let mut ws: Vec<FileWrite> = Vec::new();
    while rest.len() > 0
        invariant
            rest@.len() <= orig.len(),
            rest@ =~= orig.skip(orig.len() - rest.len()),
            writes_view(ws@) =~= planned_writes(orig.take(orig.len() - rest.len())),
        decreases rest.len(),
    {
        let ghost k = orig.len() - rest.len();
        let ghost prev = rest@;
        let part = rest.remove(0);
        proof {
            assert(part == prev[0]);
            assert(prev[0] == orig[k]);
            assert forall|j: int| 0 <= j < rest@.len() implies rest@[j] == orig.skip(k + 1)[j] by {
                assert(rest@[j] == prev[j + 1]);
                assert(prev[j + 1] == orig[k + 1 + j]);
            }
            assert(rest@ =~= orig.skip(k + 1));
            assert(orig.take(k + 1).drop_last() =~= orig.take(k));
            assert(orig.take(k + 1).last() == orig[k]);
        }
        match part.file_name {
            Some(name) => {
                let ghost old_ws = ws@;
                ws.push(FileWrite { name, data: part.data });
                proof {
                    assert(writes_view(ws@) =~= writes_view(old_ws).push(write_view(ws@.last())));
                }
            },
            None => {},
        }
    }
    proof {
        assert(orig.take(orig.len() as int) =~= orig);
    }
    ws
}

/// The path of `name` under the upload root.
pub open spec fn upload_path_of(name: Seq<char>) -> Seq<char> {
    "uploads/"@ + name
}

/// The on-disk path an uploaded file of the given name is written to.
pub fn upload_path(name: &str) -> (r: String)
    ensures
        r@ == upload_path_of(name@),
{
    let prefix: String = "uploads/".to_owned();
    prefix.concat(name)
}

/// What the multipart decoder yielded for an upload request: the next
/// part's file name, the end of the body, or a decoding or I/O failure.
pub enum UploadEvent {
    Part { file_name: Option<String> },
    End,
    Failure,
}

/// What the upload handler must do next: write the current part's bytes to
/// a destination path, skip the current part, or answer the client and stop.
pub enum UploadAction {
    Save { dest: String },
    Skip,
    Respond { status: u16, body: String },
}

/// The decision owed for one upload event: a named part is saved under the
/// upload root verbatim, an unnamed part is skipped, an exhausted body is
/// answered 200, and any failure is answered 500 with a generic body.
pub fn upload_step(event: UploadEvent) -> (a: UploadAction)
    ensures
        event matches UploadEvent::Part { file_name: Some(n) } ==> (a matches UploadAction::Save {
            dest,
        } && dest@ == upload_path_of(n@)),
        event matches UploadEvent::Part { file_name: None } ==> a is Skip,
        event is End ==> (a matches UploadAction::Respond { status, body } && status == 200
            && body@ == "File uploaded successfully"@),
        event is Failure ==> (a matches UploadAction::Respond { status, body } && status == 500
            && body@ == "Internal Server Error"@),
{
    match event {
        UploadEvent::Part { file_name: Some(n) } => UploadAction::Save {
            dest: upload_path(n.as_str()),
        },
        UploadEvent::Part { file_name: None } => UploadAction::Skip,
        UploadEvent::End => UploadAction::Respond {
            status: 200,
            body: "File uploaded successfully".to_owned(),
        },
        UploadEvent::Failure => UploadAction::Respond {
            status: 500,
            body: "Internal Server Error".to_owned(),
        },
    }
}

/// Performing a plan's writes in order leaves the directory exactly as
/// ingesting the parts does: the buffered and the streaming strategy agree.
pub proof fn lemma_strategies_agree(dir: Map<Seq<char>, Seq<u8>>, parts: Seq<UploadPart>)
    ensures
        apply_writes(dir, planned_writes(parts)) == apply_parts(dir, parts),
    decreases parts.len(),
{
    if parts.len() > 0 {
        lemma_strategies_agree(dir, parts.drop_last());
        match parts.last().file_name {
            None => {},
            Some(n) => {
                let ws = planned_writes(parts.drop_last()).push((n@, parts.last().data@));
                assert(ws.drop_last() =~= planned_writes(parts.drop_last()));
            },
        }
    }
}

/// Ingesting parts only adds files named by some part: the directory domain
/// afterwards is the old domain together with the parts' names.
pub proof fn lemma_apply_parts_dom(dir: Map<Seq<char>, Seq<u8>>, parts: Seq<UploadPart>)
    ensures
        apply_parts(dir, parts).dom() =~= dir.dom() + names_of(parts),
    decreases parts.len(),
{
    if parts.len() > 0 {
        lemma_apply_parts_dom(dir, parts.drop_last());
    }
}

/// A name is among a part sequence's names exactly when some part carries it.
pub proof fn lemma_names_of_membership(parts: Seq<UploadPart>, n: Seq<char>)
    ensures
        names_of(parts).contains(n) <==> exists|i: int|
            0 <= i < parts.len() && names_file(#[trigger] parts[i], n),
    decreases parts.len(),
{
    if parts.len() > 0 {
        lemma_names_of_membership(parts.drop_last(), n);
        if names_file(parts.last(), n) {
            assert(names_file(parts[parts.len() - 1], n));
        }
        if exists|i: int| 0 <= i < parts.len() && names_file(#[trigger] parts[i], n) {
            let i = choose|i: int| 0 <= i < parts.len() && names_file(#[trigger] parts[i], n);
            if i < parts.len() - 1 {
                assert(names_file(parts.drop_last()[i], n));
            }
        }
    }
}

/// A part sequence's name set is finite.
pub proof fn lemma_names_of_finite(parts: Seq<UploadPart>)
    ensures
        names_of(parts).finite(),
    decreases parts.len(),
{
    if parts.len() > 0 {
        lemma_names_of_finite(parts.drop_last());
    }
}

/// Last write wins: if part `j` carries name `n` and no later part does,
/// the file named `n` holds exactly part `j`'s bytes afterwards — in
/// particular, of several parts sharing one name, the last one decides the
/// file's content.
pub proof fn lemma_last_write_wins(
    dir: Map<Seq<char>, Seq<u8>>,
    parts: Seq<UploadPart>,
    n: Seq<char>,
    j: int,
)
    requires
        0 <= j < parts.len(),
        names_file(parts[j], n),
        forall|k: int| j < k < parts.len() ==> !names_file(#[trigger] parts[k], n),
    ensures
        apply_parts(dir, parts).contains_key(n),
        apply_parts(dir, parts)[n] == parts[j].data@,
    decreases parts.len(),
{
    if j == parts.len() - 1 {
        assert(names_file(parts.last(), n));
    } else {
        assert(parts.drop_last()[j] == parts[j]);
        lemma_last_write_wins(dir, parts.drop_last(), n, j);
        assert(!names_file(parts[parts.len() - 1], n));
    }
}

/// A part with no file name produces nothing: ingesting with it and without
/// it leaves the directory identical, so the parts before and after it are
/// processed exactly as if it were absent.
pub proof fn lemma_unnamed_part_skipped(
    dir: Map<Seq<char>, Seq<u8>>,
    parts: Seq<UploadPart>,
    i: int,
)
    requires
        0 <= i < parts.len(),
        parts[i].file_name is None,
    ensures
        apply_parts(dir, parts) == apply_parts(dir, parts.remove(i)),
    decreases parts.len(),
{
    if i == parts.len() - 1 {
        assert(parts.remove(i) =~= parts.drop_last());
    } else {
        assert(parts.drop_last()[i] == parts[i]);
        lemma_unnamed_part_skipped(dir, parts.drop_last(), i);
        assert(parts.remove(i).drop_last() =~= parts.drop_last().remove(i));
        assert(parts.remove(i).last() == parts.last());
        assert(parts.remove(i).len() > 0);
    }
}

/// A body with no parts changes nothing: the directory is left as it was.
pub proof fn lemma_empty_upload(dir: Map<Seq<char>, Seq<u8>>)
    ensures
        apply_parts(dir, Seq::empty()) == dir,
{
}

/// With every part named and all names distinct, ingesting into an empty
/// directory stores exactly one file per part, each holding that part's
/// bytes.
pub proof fn lemma_distinct_names_store_all(parts: Seq<UploadPart>)
    requires
        forall|i: int| 0 <= i < parts.len() ==> (#[trigger] parts[i]).file_name is Some,
        forall|i: int, k: int| #![trigger parts[i], parts[k]]
            0 <= i < k < parts.len() ==> !names_file(parts[k], parts[i].file_name->Some_0@),
    ensures
        apply_parts(Map::empty(), parts).dom().len() == parts.len(),
        forall|i: int|
            0 <= i < parts.len() ==> apply_parts(Map::empty(), parts)[(
            #[trigger] parts[i]).file_name->Some_0@] == parts[i].data@,
    decreases parts.len(),
{
    broadcast use vstd::set::group_set_axioms;

    lemma_apply_parts_dom(Map::empty(), parts);
    lemma_names_of_finite(parts);
    assert(Map::<Seq<char>, Seq<u8>>::empty().dom() =~= Set::empty());
    if parts.len() > 0 {
        let q = parts.drop_last();
        assert(forall|i: int| 0 <= i < q.len() ==> q[i] == parts[i]);
        lemma_distinct_names_store_all(q);
        lemma_apply_parts_dom(Map::empty(), q);
        lemma_names_of_finite(q);
        let last_name = parts.last().file_name->Some_0@;
        assert(names_file(parts.last(), last_name));
        lemma_names_of_membership(q, last_name);
        assert(!names_of(q).contains(last_name)) by {
            if exists|i: int| 0 <= i < q.len() && names_file(#[trigger] q[i], last_name) {
                let i = choose|i: int| 0 <= i < q.len() && names_file(#[trigger] q[i], last_name);
                assert(names_file(parts[parts.len() - 1], parts[i].file_name->Some_0@));
            }
        }
        assert(names_of(parts) =~= names_of(q).insert(last_name));
        assert(apply_parts(Map::empty(), parts).dom() =~= names_of(parts));
        assert(apply_parts(Map::empty(), parts).dom().len() == parts.len());
        assert forall|i: int| 0 <= i < parts.len() implies apply_parts(Map::empty(), parts)[(
        #[trigger] parts[i]).file_name->Some_0@] == parts[i].data@ by {
            lemma_last_write_wins(
                Map::empty(),
                parts,
                parts[i].file_name->Some_0@,
                i,
            );
        }
    }
}

} // verus!
