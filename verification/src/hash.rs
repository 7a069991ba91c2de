//! A single hash over the attributes of a build edge is recorded and used to
//! determine when those attributes change.
//!
//! The hash covers, in this order: the inputs that dirty the edge, the inputs
//! that an earlier run discovered, the command line, the content of the
//! response file if there is one, and the outputs. Every list of files ends
//! with a separator, so that moving a file from one list to the next changes
//! what is hashed.

use crate::graph::{Build, FileId, FileState, Graph, MTime, RspFile, Timestamp};
use crate::text::{decimal, hex, is_decimal_digit, lemma_decimal_is_digits, push_decimal, push_hex};
use std::collections::hash_map::DefaultHasher;
use std::hash::Hasher;
use vstd::bytes::{spec_u32_to_le_bytes, spec_u64_to_le_bytes, u32_to_le_bytes, u64_to_le_bytes};
use vstd::pervasive::unreached;
use vstd::prelude::*;
use vstd::std_specs::hash::DefaultHasherAdditionalSpecFns;
use vstd::string::*;
use vstd::utf8::{decode_utf8, encode_utf8, encode_utf8_decode_utf8};

verus! {

/// Hash value used to identify a given instance of a build's execution;
/// compared to verify whether a build is up to date.
#[derive(Debug, Copy, Clone, PartialEq, Eq, Structural)]
pub struct Hash(pub u64);

/// The byte that ends each list of files and the command line. It stands in
/// no file name and no command line under normal operation.
pub const UNIT_SEPARATOR: u8 = 0x1F;

/// The byte that ends each string. It stands in no string: UTF-8 never
/// produces it.
pub const STRING_END: u8 = 0xFF;

/// What is hashed of one file: its name and its modification time.
pub struct FileEntry {
    pub name: Seq<char>,
    pub mtime: Timestamp,
}

/// True when `id` names a file of the graph that was looked at and exists.
pub open spec fn present(graph: &Graph, file_state: &FileState, id: FileId) -> bool {
    graph.contains(id) && file_state.status(id) matches Some(MTime::Stamp(_))
}

/// True when every file of `ids` is present.
pub open spec fn all_present(graph: &Graph, file_state: &FileState, ids: Seq<FileId>) -> bool {
    forall|i: int| 0 <= i < ids.len() ==> present(graph, file_state, #[trigger] ids[i])
}

/// True when every file that `build` refers to is present. An edge with a
/// missing file is out of date whatever the others say, and is not hashed.
pub open spec fn hashable(graph: &Graph, file_state: &FileState, build: &Build) -> bool {
    &&& all_present(graph, file_state, build.ins@)
    &&& all_present(graph, file_state, build.discovered@)
    &&& all_present(graph, file_state, build.outs@)
}

/// The modification time recorded for a file that is present.
pub open spec fn stamp_of(file_state: &FileState, id: FileId) -> Timestamp
    recommends
        file_state.status(id) matches Some(MTime::Stamp(_)),
{
    match file_state.status(id) {
        Some(MTime::Stamp(stamp)) => stamp,
        _ => Timestamp { secs: 0, nanos: 0 },
    }
}

/// What is hashed of the file that `id` names.
pub open spec fn entry(graph: &Graph, file_state: &FileState, id: FileId) -> FileEntry {
    FileEntry { name: graph.name(id), mtime: stamp_of(file_state, id) }
}

/// What is hashed of the files of `ids`, in the order of `ids`.
pub open spec fn entries(graph: &Graph, file_state: &FileState, ids: Seq<FileId>) -> Seq<
    FileEntry,
> {
    Seq::new(ids.len(), |i: int| entry(graph, file_state, ids[i]))
}

/// Name and modification time of a file that is present.
pub fn get_fileid_status<'a>(graph: &'a Graph, file_state: &FileState, id: FileId) -> (status: (
    &'a str,
    Timestamp,
))
    requires
        present(graph, file_state, id),
    ensures
        status.0@ == graph.name(id),
        status.1 == stamp_of(file_state, id),
{
    let name = graph.file(id).name.as_str();
    match file_state.get(id) {
        Some(MTime::Stamp(mtime)) => (name, mtime),
        _ => unreached(),
    }
}

/// True when `id` names a file of the graph that was looked at and exists.
pub fn is_present(graph: &Graph, file_state: &FileState, id: FileId) -> (found: bool)
    ensures
        found == present(graph, file_state, id),
{
    if id.index() < graph.files.len() {
        match file_state.get(id) {
            Some(MTime::Stamp(_)) => true,
            _ => false,
        }
    } else {
        false
    }
}

/// True when every file of `ids` is present.
fn are_present(graph: &Graph, file_state: &FileState, ids: &[FileId]) -> (found: bool)
    ensures
        found == all_present(graph, file_state, ids@),
{
    let mut i: usize = 0;
    while i < ids.len()
        invariant
            i <= ids@.len(),
            all_present(graph, file_state, ids@.take(i as int)),
        decreases ids@.len() - i,
    {
        if !is_present(graph, file_state, ids[i]) {
            return false;
        }
        assert forall|k: int| 0 <= k < i + 1 implies present(
            graph,
            file_state,
            #[trigger] ids@.take(i + 1)[k],
        ) by {
            if k < i {
                assert(ids@.take(i + 1)[k] == ids@.take(i as int)[k]);
            }
        }
        i += 1;
    }
    assert(ids@.take(i as int) =~= ids@);
    true
}

/// True when every file that `build` refers to is present, so that the edge
/// can be hashed.
pub fn is_hashable(graph: &Graph, file_state: &FileState, build: &Build) -> (ready: bool)
    ensures
        ready == hashable(graph, file_state, build),
{
    are_present(graph, file_state, build.dirtying_ins()) && are_present(
        graph,
        file_state,
        build.discovered_ins(),
    ) && are_present(graph, file_state, build.outs())
}

/// The visitor that hashing an edge feeds. There are two: one computes the
/// hash, the other writes down what is hashed, for a reader. Both are fed by
/// the same traversal, so that they never see different data.
pub trait BuildHasher {
    /// What a visitor has gathered.
    type Record;

    /// What this visitor has gathered so far.
    spec fn record(&self) -> Self::Record;

    /// What is gathered after a list of files, named `desc`, was added.
    spec fn with_files(record: Self::Record, desc: Seq<char>, files: Seq<FileEntry>) -> Self::Record;

    /// What is gathered after a response file was added.
    spec fn with_rsp(record: Self::Record, path: Seq<char>, content: Seq<char>) -> Self::Record;

    /// What is gathered after the command line was added.
    spec fn with_cmdline(record: Self::Record, cmdline: Seq<char>) -> Self::Record;

    /// Adds a list of files with their modification times. `desc` names the
    /// list to a reader.
    fn write_files(&mut self, desc: &str, graph: &Graph, file_state: &FileState, ids: &[FileId])
        requires
            all_present(graph, file_state, ids@),
        ensures
            final(self).record() == Self::with_files(
                old(self).record(),
                desc@,
                entries(graph, file_state, ids@),
            ),
    ;

    /// Adds a response file.
    fn write_rsp(&mut self, rspfile: &RspFile)
        ensures
            final(self).record() == Self::with_rsp(
                old(self).record(),
                rspfile.path@,
                rspfile.content@,
            ),
    ;

    /// Adds the command line.
    fn write_cmdline(&mut self, cmdline: &str)
        ensures
            final(self).record() == Self::with_cmdline(old(self).record(), cmdline@),
    ;
}

/// What a visitor has gathered after it was fed the edge `build`: the
/// dirtying inputs, the discovered inputs, the command line, the response
/// file if there is one, and the outputs, always in this order.
pub open spec fn visited<H: BuildHasher>(
    record: H::Record,
    graph: &Graph,
    file_state: &FileState,
    build: &Build,
) -> H::Record {
    let ins = H::with_files(record, "in"@, entries(graph, file_state, build.ins@));
    let discovered = H::with_files(
        ins,
        "discovered"@,
        entries(graph, file_state, build.discovered@),
    );
    let cmdline = H::with_cmdline(discovered, build.spec_cmdline());
    let rsp = match build.rspfile {
        Some(rspfile) => H::with_rsp(cmdline, rspfile.path@, rspfile.content@),
        None => cmdline,
    };
    H::with_files(rsp, "out"@, entries(graph, file_state, build.outs@))
}

/// Feeds the edge `build` to a visitor.
pub fn hash_build_with_hasher<H: BuildHasher>(
    hasher: &mut H,
    graph: &Graph,
    file_state: &FileState,
    build: &Build,
)
    requires
        hashable(graph, file_state, build),
    ensures
        final(hasher).record() == visited::<H>(old(hasher).record(), graph, file_state, build),
{
    hasher.write_files("in", graph, file_state, build.dirtying_ins());
    hasher.write_files("discovered", graph, file_state, build.discovered_ins());
    match &build.cmdline {
        Some(cmdline) => hasher.write_cmdline(cmdline.as_str()),
        None => {
            proof {
                reveal_strlit("");
            }
            assert(""@ =~= Seq::<char>::empty());
            hasher.write_cmdline("")
        },
    }
    if let Some(rspfile) = &build.rspfile {
        hasher.write_rsp(rspfile);
    }
    hasher.write_files("out", graph, file_state, build.outs());
}

/// What the hash is fed for a string: its bytes in UTF-8, then the byte that
/// ends a string.
pub open spec fn terse_string(text: Seq<char>) -> Seq<Seq<u8>> {
    seq![encode_utf8(text), seq![STRING_END]]
}

/// What the hash is fed for one file: its name, then the seconds and the
/// nanoseconds of its modification time, least significant byte first.
pub open spec fn terse_file(file: FileEntry) -> Seq<Seq<u8>> {
    terse_string(file.name).push(spec_u64_to_le_bytes(file.mtime.secs)).push(
        spec_u32_to_le_bytes(file.mtime.nanos),
    )
}

/// What the hash is fed for each file of a list, file by file.
pub open spec fn terse_records(files: Seq<FileEntry>) -> Seq<Seq<Seq<u8>>> {
    Seq::new(files.len(), |i: int| terse_file(files[i]))
}

/// What the hash is fed for a list of files: the files in order, then the
/// separator.
pub open spec fn terse_files(files: Seq<FileEntry>) -> Seq<Seq<u8>> {
    terse_records(files).flatten().push(seq![UNIT_SEPARATOR])
}

/// What the hash is fed for the command line: its text, then the separator.
pub open spec fn terse_cmdline(cmdline: Seq<char>) -> Seq<Seq<u8>> {
    terse_string(cmdline).push(seq![UNIT_SEPARATOR])
}

/// What the hash is fed for a response file: its content.
pub open spec fn terse_rsp(content: Seq<char>) -> Seq<Seq<u8>> {
    terse_string(content)
}

/// Everything that the hash of the edge `build` is fed, write by write.
pub open spec fn terse_build(graph: &Graph, file_state: &FileState, build: &Build) -> Seq<
    Seq<u8>,
> {
    terse_files(entries(graph, file_state, build.ins@)) + terse_files(
        entries(graph, file_state, build.discovered@),
    ) + terse_cmdline(build.spec_cmdline()) + match build.rspfile {
        Some(rspfile) => terse_rsp(rspfile.content@),
        None => Seq::empty(),
    } + terse_files(entries(graph, file_state, build.outs@))
}

/// The hash of the edge `build`: the digest of everything that it is fed.
pub open spec fn fingerprint(graph: &Graph, file_state: &FileState, build: &Build) -> Hash {
    Hash(DefaultHasher::spec_finish(terse_build(graph, file_state, build)))
}

/// The visitor used during normal builds, designed to not serialize too much.
pub struct TerseHash(DefaultHasher);

impl View for TerseHash {
    type V = Seq<Seq<u8>>;

    /// The writes made so far.
    closed spec fn view(&self) -> Seq<Seq<u8>> {
        self.0@
    }
}

impl Default for TerseHash {
    fn default() -> (hasher: TerseHash)
        ensures
            hasher@ == Seq::<Seq<u8>>::empty(),
    {
        TerseHash(DefaultHasher::new())
    }
}

impl TerseHash {
    /// Feeds one byte, as a write of its own.
    fn write_byte(&mut self, byte: u8)
        ensures
            final(self)@ == old(self)@.push(seq![byte]),
    {
        let bytes: [u8; 1] = [byte];
        assert(bytes@ =~= seq![byte]);
        self.0.write(bytes.as_slice());
    }

    /// Feeds a string, and the byte that ends it.
    pub fn write_string(&mut self, string: &str)
        ensures
            final(self)@ == old(self)@ + terse_string(string@),
    {
        self.0.write(string.as_bytes());
        self.write_byte(STRING_END);
        assert(self@ =~= old(self)@ + terse_string(string@));
    }

    /// Feeds the separator.
    pub fn write_separator(&mut self)
        ensures
            final(self)@ == old(self)@.push(seq![UNIT_SEPARATOR]),
    {
        self.write_byte(UNIT_SEPARATOR);
    }

    /// Feeds a modification time.
    fn write_mtime(&mut self, mtime: Timestamp)
        ensures
            final(self)@ == old(self)@.push(spec_u64_to_le_bytes(mtime.secs)).push(
                spec_u32_to_le_bytes(mtime.nanos),
            ),
    {
        let secs = u64_to_le_bytes(mtime.secs);
        self.0.write(secs.as_slice());
        let nanos = u32_to_le_bytes(mtime.nanos);
        self.0.write(nanos.as_slice());
    }

    /// The hash of what was fed so far.
    pub fn finish(&mut self) -> (hash: Hash)
        ensures
            hash == Hash(DefaultHasher::spec_finish(old(self)@)),
            final(self)@ == old(self)@,
    {
        Hash(self.0.finish())
    }
}

impl BuildHasher for TerseHash {
    type Record = Seq<Seq<u8>>;

    open spec fn record(&self) -> Seq<Seq<u8>> {
        self@
    }

    open spec fn with_files(record: Seq<Seq<u8>>, desc: Seq<char>, files: Seq<FileEntry>) -> Seq<
        Seq<u8>,
    > {
        record + terse_files(files)
    }

    open spec fn with_rsp(record: Seq<Seq<u8>>, path: Seq<char>, content: Seq<char>) -> Seq<
        Seq<u8>,
    > {
        record + terse_rsp(content)
    }

    open spec fn with_cmdline(record: Seq<Seq<u8>>, cmdline: Seq<char>) -> Seq<Seq<u8>> {
        record + terse_cmdline(cmdline)
    }

    fn write_files(&mut self, _desc: &str, graph: &Graph, file_state: &FileState, ids: &[FileId]) {
        let ghost files = entries(graph, file_state, ids@);
        let mut i: usize = 0;
        assert(terse_records(files.take(0)).flatten() =~= Seq::<Seq<u8>>::empty());
        while i < ids.len()
            invariant
                i <= ids@.len(),
                all_present(graph, file_state, ids@),
                files == entries(graph, file_state, ids@),
                self@ == old(self)@ + terse_records(files.take(i as int)).flatten(),
            decreases ids@.len() - i,
        {
            let (name, mtime) = get_fileid_status(graph, file_state, ids[i]);
            self.write_string(name);
            self.write_mtime(mtime);
            proof {
                let done = terse_records(files.take(i as int));
                assert(terse_records(files.take(i + 1)) =~= done.push(
                    terse_file(files[i as int]),
                ));
                done.lemma_flatten_push(terse_file(files[i as int]));
                assert(self@ =~= old(self)@ + terse_records(files.take(i + 1)).flatten());
            }
            i += 1;
        }
        assert(files.take(i as int) =~= files);
        self.write_separator();
        assert(self@ =~= old(self)@ + terse_files(files));
    }

    fn write_rsp(&mut self, rspfile: &RspFile) {
        self.write_string(rspfile.content.as_str());
    }

    fn write_cmdline(&mut self, cmdline: &str) {
        self.write_string(cmdline);
        self.write_separator();
        assert(self@ =~= old(self)@ + terse_cmdline(cmdline@));
    }
}

/// Feeding an edge to the hashing visitor appends `terse_build` to what it
/// was fed before.
proof fn lemma_visited_terse(
    record: Seq<Seq<u8>>,
    graph: &Graph,
    file_state: &FileState,
    build: &Build,
)
    ensures
        visited::<TerseHash>(record, graph, file_state, build) == record + terse_build(
            graph,
            file_state,
            build,
        ),
{
    assert(visited::<TerseHash>(record, graph, file_state, build) =~= record + terse_build(
        graph,
        file_state,
        build,
    ));
}

/// Hashes the attributes of a build edge to compute its signature.
///
/// Every file that the edge refers to has been looked at and is present: an
/// edge with a missing file is out of date regardless of the state of the
/// other files, and is not hashed.
pub fn hash_build(graph: &Graph, file_state: &FileState, build: &Build) -> (hash: Hash)
    requires
        hashable(graph, file_state, build),
    ensures
        hash == fingerprint(graph, file_state, build),
{
    let mut hasher = TerseHash::default();
    hash_build_with_hasher(&mut hasher, graph, file_state, build);
    proof {
        lemma_visited_terse(Seq::empty(), graph, file_state, build);
        assert(Seq::<Seq<u8>>::empty() + terse_build(graph, file_state, build) =~= terse_build(
            graph,
            file_state,
            build,
        ));
    }
    hasher.finish()
}

/// The line of an explanation that tells of one file: two spaces, the
/// modification time in milliseconds since the Unix epoch, a space, the name.
pub open spec fn explain_line(file: FileEntry) -> Seq<char> {
    seq![' ', ' '] + decimal(file.mtime.spec_millis()) + seq![' '] + file.name + seq!['\n']
}

/// The lines of an explanation that tell of the files of a list, one each.
pub open spec fn explain_lines(files: Seq<FileEntry>) -> Seq<Seq<char>> {
    Seq::new(files.len(), |i: int| explain_line(files[i]))
}

/// What an explanation says of a list of files: a line that names the list,
/// then a line for each file, in order.
pub open spec fn explain_files(desc: Seq<char>, files: Seq<FileEntry>) -> Seq<char> {
    desc + seq![':', '\n'] + explain_lines(files).flatten()
}

/// What an explanation says of the command line.
pub open spec fn explain_cmdline(cmdline: Seq<char>) -> Seq<char> {
    "cmdline: "@ + cmdline + seq!['\n']
}

/// The hash of the content of a response file, taken by itself.
pub open spec fn content_hash(content: Seq<char>) -> u64 {
    DefaultHasher::spec_finish(seq![encode_utf8(content)])
}

/// What an explanation says of a response file: its path, and the hash of
/// its content in hexadecimal in place of the content.
pub open spec fn explain_rsp(path: Seq<char>, content: Seq<char>) -> Seq<char> {
    "rspfile path: "@ + path + seq!['\n'] + "rspfile hash: "@ + hex(content_hash(content) as nat)
        + seq!['\n']
}

/// Everything that an explanation says of the edge `build`.
pub open spec fn explain_build(graph: &Graph, file_state: &FileState, build: &Build) -> Seq<
    char,
> {
    explain_files("in"@, entries(graph, file_state, build.ins@)) + explain_files(
        "discovered"@,
        entries(graph, file_state, build.discovered@),
    ) + explain_cmdline(build.spec_cmdline()) + match build.rspfile {
        Some(rspfile) => explain_rsp(rspfile.path@, rspfile.content@),
        None => Seq::empty(),
    } + explain_files("out"@, entries(graph, file_state, build.outs@))
}

/// The visitor that records human-readable text of what is hashed, for
/// debugging.
pub struct ExplainHash {
    text: String,
}

impl View for ExplainHash {
    type V = Seq<char>;

    /// The text written so far.
    closed spec fn view(&self) -> Seq<char> {
        self.text@
    }
}

impl Default for ExplainHash {
    fn default() -> (explainer: ExplainHash)
        ensures
            explainer@ == Seq::<char>::empty(),
    {
        ExplainHash { text: String::new() }
    }
}

impl ExplainHash {
    /// The text written so far.
    pub fn into_text(self) -> (text: String)
        ensures
            text@ == self@,
    {
        self.text
    }
}

impl BuildHasher for ExplainHash {
    type Record = Seq<char>;

    open spec fn record(&self) -> Seq<char> {
        self@
    }

    open spec fn with_files(record: Seq<char>, desc: Seq<char>, files: Seq<FileEntry>) -> Seq<
        char,
    > {
        record + explain_files(desc, files)
    }

    open spec fn with_rsp(record: Seq<char>, path: Seq<char>, content: Seq<char>) -> Seq<char> {
        record + explain_rsp(path, content)
    }

    open spec fn with_cmdline(record: Seq<char>, cmdline: Seq<char>) -> Seq<char> {
        record + explain_cmdline(cmdline)
    }

    fn write_files(&mut self, desc: &str, graph: &Graph, file_state: &FileState, ids: &[FileId]) {
        proof {
            reveal_strlit(":\n");
            reveal_strlit("  ");
            reveal_strlit(" ");
            reveal_strlit("\n");
        }
        let ghost files = entries(graph, file_state, ids@);
        let ghost head = old(self)@ + desc@ + seq![':', '\n'];
        self.text.append(desc);
        self.text.append(":\n");
        assert(self@ =~= head + explain_lines(files.take(0)).flatten());
        let mut i: usize = 0;
        while i < ids.len()
            invariant
                i <= ids@.len(),
                all_present(graph, file_state, ids@),
                files == entries(graph, file_state, ids@),
                self@ == head + explain_lines(files.take(i as int)).flatten(),
                " "@ == seq![' '],
                "  "@ == seq![' ', ' '],
                "\n"@ == seq!['\n'],
            decreases ids@.len() - i,
        {
            let (name, mtime) = get_fileid_status(graph, file_state, ids[i]);
            let millis = mtime.millis();
            self.text.append("  ");
            push_decimal(&mut self.text, millis);
            self.text.append(" ");
            self.text.append(name);
            self.text.append("\n");
            proof {
                let done = explain_lines(files.take(i as int));
                assert(explain_lines(files.take(i + 1)) =~= done.push(
                    explain_line(files[i as int]),
                ));
                done.lemma_flatten_push(explain_line(files[i as int]));
                assert(self@ =~= head + explain_lines(files.take(i + 1)).flatten());
            }
            i += 1;
        }
        assert(files.take(i as int) =~= files);
        assert(self@ =~= old(self)@ + explain_files(desc@, files));
    }

    fn write_rsp(&mut self, rspfile: &RspFile) {
        proof {
            reveal_strlit("\n");
        }
        self.text.append("rspfile path: ");
        self.text.append(rspfile.path.as_str());
        self.text.append("\n");
        let mut h = DefaultHasher::new();
        h.write(rspfile.content.as_str().as_bytes());
        assert(h@ =~= seq![encode_utf8(rspfile.content@)]);
        self.text.append("rspfile hash: ");
        push_hex(&mut self.text, h.finish());
        self.text.append("\n");
        assert(self@ =~= old(self)@ + explain_rsp(rspfile.path@, rspfile.content@));
    }

    fn write_cmdline(&mut self, cmdline: &str) {
        proof {
            reveal_strlit("\n");
        }
        self.text.append("cmdline: ");
        self.text.append(cmdline);
        self.text.append("\n");
        assert(self@ =~= old(self)@ + explain_cmdline(cmdline@));
    }
}

/// Feeding an edge to the explaining visitor appends `explain_build` to what
/// it wrote before.
proof fn lemma_visited_explain(
    record: Seq<char>,
    graph: &Graph,
    file_state: &FileState,
    build: &Build,
)
    ensures
        visited::<ExplainHash>(record, graph, file_state, build) == record + explain_build(
            graph,
            file_state,
            build,
        ),
{
    assert(visited::<ExplainHash>(record, graph, file_state, build) =~= record + explain_build(
        graph,
        file_state,
        build,
    ));
}

/// Writes down, for a reader, the state of everything that is hashed of a
/// build edge: the same files, in the same lists and the same order.
pub fn explain_hash_build(graph: &Graph, file_state: &FileState, build: &Build) -> (text: String)
    requires
        hashable(graph, file_state, build),
    ensures
        text@ == explain_build(graph, file_state, build),
{
    let mut explainer = ExplainHash::default();
    hash_build_with_hasher(&mut explainer, graph, file_state, build);
    proof {
        lemma_visited_explain(Seq::empty(), graph, file_state, build);
        assert(Seq::<char>::empty() + explain_build(graph, file_state, build) =~= explain_build(
            graph,
            file_state,
            build,
        ));
    }
    explainer.into_text()
}

/// The text of the content of a response file, where there is one.
pub open spec fn rsp_content(build: &Build) -> Option<Seq<char>> {
    match build.rspfile {
        Some(rspfile) => Some(rspfile.content@),
        None => None,
    }
}

/// The hash of an edge depends on nothing but the names and modification
/// times of its files, list by list and in their order, the text of its
/// command line and the content of its response file: two edges that agree
/// in these have the same hash, whatever graphs they belong to.
pub proof fn lemma_hash_depends_on_what_is_hashed(
    graph: Graph,
    file_state: FileState,
    build: Build,
    other_graph: Graph,
    other_state: FileState,
    other: Build,
)
    requires
        entries(&graph, &file_state, build.ins@) == entries(&other_graph, &other_state, other.ins@),
        entries(&graph, &file_state, build.discovered@) == entries(
            &other_graph,
            &other_state,
            other.discovered@,
        ),
        entries(&graph, &file_state, build.outs@) == entries(
            &other_graph,
            &other_state,
            other.outs@,
        ),
        build.spec_cmdline() == other.spec_cmdline(),
        rsp_content(&build) == rsp_content(&other),
    ensures
        terse_build(&graph, &file_state, &build) == terse_build(
            &other_graph,
            &other_state,
            &other,
        ),
        fingerprint(&graph, &file_state, &build) == fingerprint(
            &other_graph,
            &other_state,
            &other,
        ),
{
}

/// Where the first space stands in `text`; its length where it has none.
pub open spec fn first_space(text: Seq<char>) -> int
    decreases text.len(),
{
    if text.len() == 0 || text[0] == ' ' {
        0
    } else {
        1 + first_space(text.drop_first())
    }
}

/// The name that a line of an explanation tells of: what stands between
/// the space after the time and the end of the line.
pub open spec fn line_name(line: Seq<char>) -> Seq<char> {
    let told = line.skip(2);
    told.subrange(first_space(told) + 1, told.len() - 1)
}

/// In a text that begins with digits and a space, the first space is the
/// one after the digits.
proof fn lemma_first_space_after_digits(digits: Seq<char>, rest: Seq<char>)
    requires
        forall|i: int| 0 <= i < digits.len() ==> is_decimal_digit(#[trigger] digits[i]),
    ensures
        first_space(digits + seq![' '] + rest) == digits.len(),
    decreases digits.len(),
{
    let text = digits + seq![' '] + rest;
    if digits.len() == 0 {
        assert(text[0] == ' ');
    } else {
        assert(text[0] == digits[0]);
        assert(is_decimal_digit(digits[0]));
        assert(text.drop_first() =~= digits.drop_first() + seq![' '] + rest);
        assert forall|i: int| 0 <= i < digits.drop_first().len() implies is_decimal_digit(
            #[trigger] digits.drop_first()[i],
        ) by {
            assert(digits.drop_first()[i] == digits[i + 1]);
        }
        lemma_first_space_after_digits(digits.drop_first(), rest);
    }
}

/// The line of an explanation that tells of a file names that file.
pub proof fn lemma_line_names_its_file(file: FileEntry)
    ensures
        line_name(explain_line(file)) == file.name,
{
    let digits = decimal(file.mtime.spec_millis());
    let rest = file.name + seq!['\n'];
    let told = explain_line(file).skip(2);
    lemma_decimal_is_digits(file.mtime.spec_millis());
    lemma_first_space_after_digits(digits, rest);
    assert(told =~= digits + seq![' '] + rest);
    assert(told.subrange(digits.len() as int + 1, told.len() - 1) =~= file.name);
}

/// The names of the files of `ids`, in the order of `ids`.
pub open spec fn names_of(graph: &Graph, ids: Seq<FileId>) -> Seq<Seq<char>> {
    Seq::new(ids.len(), |i: int| graph.name(ids[i]))
}

/// The names that an explanation lists for some files: the name that each
/// of its lines tells of, line by line.
pub open spec fn explained_names(files: Seq<FileEntry>) -> Seq<Seq<char>> {
    Seq::new(explain_lines(files).len(), |i: int| line_name(explain_lines(files)[i]))
}

/// The names that the hash is fed for some files: the first write made for
/// each file, read as UTF-8, file by file.
pub open spec fn hashed_names(files: Seq<FileEntry>) -> Seq<Seq<char>> {
    Seq::new(terse_records(files).len(), |i: int| decode_utf8(terse_records(files)[i][0]))
}

/// For every list of files, the names that the explanation lists and the
/// names that the hash is fed are the same, one for one and in the same
/// order: they are the names of the files of the list.
pub proof fn lemma_list_is_explained_as_hashed(
    graph: Graph,
    file_state: FileState,
    ids: Seq<FileId>,
)
    ensures
        explained_names(entries(&graph, &file_state, ids)) == names_of(&graph, ids),
        hashed_names(entries(&graph, &file_state, ids)) == names_of(&graph, ids),
{
    let files = entries(&graph, &file_state, ids);
    assert forall|i: int| 0 <= i < ids.len() implies #[trigger] explained_names(files)[i]
        == graph.name(ids[i]) by {
        lemma_line_names_its_file(files[i]);
    }
    assert forall|i: int| 0 <= i < ids.len() implies #[trigger] hashed_names(files)[i]
        == graph.name(ids[i]) by {
        encode_utf8_decode_utf8(graph.name(ids[i]));
    }
    assert(explained_names(files) =~= names_of(&graph, ids));
    assert(hashed_names(files) =~= names_of(&graph, ids));
}

/// The explanation of an edge tells of the files that are hashed: in each of
/// the three lists of the edge, the names that the explanation lists are
/// those that the hash is fed, in the same order, and they are the names of
/// the files of that list. Both the explanation and what is hashed are made
/// of these lists, in the order dirtying inputs, discovered inputs, outputs.
pub proof fn lemma_explain_names_what_is_hashed(graph: Graph, file_state: FileState, build: Build)
    ensures
        explained_names(entries(&graph, &file_state, build.ins@)) == hashed_names(
            entries(&graph, &file_state, build.ins@),
        ),
        explained_names(entries(&graph, &file_state, build.discovered@)) == hashed_names(
            entries(&graph, &file_state, build.discovered@),
        ),
        explained_names(entries(&graph, &file_state, build.outs@)) == hashed_names(
            entries(&graph, &file_state, build.outs@),
        ),
        hashed_names(entries(&graph, &file_state, build.ins@)) == names_of(&graph, build.ins@),
        hashed_names(entries(&graph, &file_state, build.discovered@)) == names_of(
            &graph,
            build.discovered@,
        ),
        hashed_names(entries(&graph, &file_state, build.outs@)) == names_of(&graph, build.outs@),
{
    lemma_list_is_explained_as_hashed(graph, file_state, build.ins@);
    lemma_list_is_explained_as_hashed(graph, file_state, build.discovered@);
    lemma_list_is_explained_as_hashed(graph, file_state, build.outs@);
}

} // verus!
