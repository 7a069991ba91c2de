//! What the bytes that are hashed tell of an edge.
//!
//! A hash of 64 bits cannot tell all edges apart. What can be shown is that
//! the bytes it is computed from differ where it matters: where a file of the
//! edge has another modification time, where the response file differs, and
//! where a file stands in another list.

use crate::graph::{Build, FileState, Graph};
use crate::hash::{
    entries, rsp_content, terse_build, terse_cmdline, terse_file, terse_files, terse_records,
    terse_rsp, terse_string, FileEntry, STRING_END, UNIT_SEPARATOR,
};
use vstd::bytes::{
    lemma_auto_spec_u32_to_from_le_bytes, lemma_auto_spec_u64_to_from_le_bytes,
    spec_u32_to_le_bytes, spec_u64_to_le_bytes,
};
use vstd::prelude::*;
use vstd::seq_lib::lemma_flatten_concat;
use vstd::utf8::{
    char_u32_cast, encode_scalar, encode_utf8, encode_utf8_decode_utf8, has_width_1_encoding,
    has_width_2_encoding, has_width_3_encoding,
};

verus! {

/// The bytes that the hash of an edge is computed from: everything that the
/// hash is fed, write after write, in one row.
pub open spec fn hashed_bytes(graph: &Graph, file_state: &FileState, build: &Build) -> Seq<u8> {
    terse_build(graph, file_state, build).flatten()
}

/// The bytes that are hashed of one file: its name in UTF-8, the end of the
/// string, eight bytes of seconds and four bytes of nanoseconds.
pub open spec fn file_bytes(file: FileEntry) -> Seq<u8> {
    encode_utf8(file.name) + seq![STRING_END] + spec_u64_to_le_bytes(file.mtime.secs)
        + spec_u32_to_le_bytes(file.mtime.nanos)
}

/// The bytes that are hashed of the files of a list, without the separator.
pub open spec fn files_bytes(files: Seq<FileEntry>) -> Seq<u8> {
    terse_records(files).flatten().flatten()
}

/// Two rows that are equal, and whose first parts have the same length,
/// are equal part by part.
proof fn lemma_split<A>(a: Seq<A>, b: Seq<A>, c: Seq<A>, d: Seq<A>)
    requires
        a + b == c + d,
        a.len() == c.len(),
    ensures
        a == c,
        b == d,
{
    let left = a + b;
    let right = c + d;
    assert(left.len() == a.len() + b.len());
    assert(right.len() == c.len() + d.len());
    assert forall|i: int| 0 <= i < a.len() implies a[i] == c[i] by {
        assert(left[i] == a[i]);
        assert(right[i] == c[i]);
    }
    assert(a =~= c);
    assert forall|i: int| 0 <= i < b.len() implies b[i] == d[i] by {
        assert(left[a.len() + i] == b[i]);
        assert(right[c.len() + i] == d[i]);
    }
    assert(b =~= d);
}

/// What the hash is fed for a string, in one row.
proof fn lemma_string_bytes(text: Seq<char>)
    ensures
        terse_string(text).flatten() == encode_utf8(text) + seq![STRING_END],
{
    reveal_with_fuel(Seq::flatten, 3);
    assert(terse_string(text).drop_first() =~= seq![seq![STRING_END]]);
    assert(seq![seq![STRING_END]].drop_first() =~= Seq::<Seq<u8>>::empty());
    assert(terse_string(text).flatten() =~= encode_utf8(text) + seq![STRING_END]);
}

/// What the hash is fed for one file, in one row.
proof fn lemma_file_bytes(file: FileEntry)
    ensures
        terse_file(file).flatten() == file_bytes(file),
{
    let secs = spec_u64_to_le_bytes(file.mtime.secs);
    let nanos = spec_u32_to_le_bytes(file.mtime.nanos);
    lemma_string_bytes(file.name);
    terse_string(file.name).lemma_flatten_push(secs);
    terse_string(file.name).push(secs).lemma_flatten_push(nanos);
}

/// What the hash is fed for a list of files, in one row: the bytes of the
/// files, then the separator.
proof fn lemma_list_bytes(files: Seq<FileEntry>)
    ensures
        terse_files(files).flatten() == files_bytes(files) + seq![UNIT_SEPARATOR],
{
    terse_records(files).flatten().lemma_flatten_push(seq![UNIT_SEPARATOR]);
}

/// The bytes that are hashed of the response file of an edge: its content
/// in UTF-8 and the end of the string; nothing where there is none.
pub open spec fn rsp_bytes(build: &Build) -> Seq<u8> {
    match build.rspfile {
        Some(rspfile) => encode_utf8(rspfile.content@) + seq![STRING_END],
        None => Seq::empty(),
    }
}

/// The bytes that are hashed of an edge from its outputs on.
spec fn from_outs(graph: &Graph, file_state: &FileState, build: &Build) -> Seq<u8> {
    files_bytes(entries(graph, file_state, build.outs@)) + seq![UNIT_SEPARATOR] + Seq::empty()
}

/// The bytes that are hashed of an edge from its response file on.
spec fn from_rsp(graph: &Graph, file_state: &FileState, build: &Build) -> Seq<u8> {
    rsp_bytes(build) + from_outs(graph, file_state, build)
}

/// The bytes that are hashed of an edge from its command line on.
spec fn from_cmdline(graph: &Graph, file_state: &FileState, build: &Build) -> Seq<u8> {
    encode_utf8(build.spec_cmdline()) + seq![STRING_END] + (seq![UNIT_SEPARATOR] + from_rsp(
        graph,
        file_state,
        build,
    ))
}

/// The bytes that are hashed of an edge from its discovered inputs on.
spec fn from_discovered(graph: &Graph, file_state: &FileState, build: &Build) -> Seq<u8> {
    files_bytes(entries(graph, file_state, build.discovered@)) + seq![UNIT_SEPARATOR]
        + from_cmdline(graph, file_state, build)
}

/// The bytes that are hashed of an edge, list by list: the dirtying inputs
/// and their separator, the discovered inputs and theirs, the command line
/// with its end and its separator, the response file, the outputs and their
/// separator.
proof fn lemma_hashed_bytes(graph: &Graph, file_state: &FileState, build: &Build)
    ensures
        hashed_bytes(graph, file_state, build) == files_bytes(
            entries(graph, file_state, build.ins@),
        ) + seq![UNIT_SEPARATOR] + from_discovered(graph, file_state, build),
{
    let ins = terse_files(entries(graph, file_state, build.ins@));
    let discovered = terse_files(entries(graph, file_state, build.discovered@));
    let cmdline = terse_cmdline(build.spec_cmdline());
    let rsp = match build.rspfile {
        Some(rspfile) => terse_rsp(rspfile.content@),
        None => Seq::empty(),
    };
    let outs = terse_files(entries(graph, file_state, build.outs@));
    assert(terse_build(graph, file_state, build).flatten() == ins.flatten() + discovered.flatten()
        + cmdline.flatten() + rsp.flatten() + outs.flatten()) by {
        lemma_flatten_concat(ins + discovered + cmdline + rsp, outs);
        lemma_flatten_concat(ins + discovered + cmdline, rsp);
        lemma_flatten_concat(ins + discovered, cmdline);
        lemma_flatten_concat(ins, discovered);
    }
    assert(cmdline.flatten() == encode_utf8(build.spec_cmdline()) + seq![STRING_END] + seq![
        UNIT_SEPARATOR,
    ]) by {
        lemma_string_bytes(build.spec_cmdline());
        terse_string(build.spec_cmdline()).lemma_flatten_push(seq![UNIT_SEPARATOR]);
    }
    assert(rsp.flatten() == rsp_bytes(build)) by {
        match build.rspfile {
            Some(rspfile) => {
                lemma_string_bytes(rspfile.content@);
            },
            None => {
                assert(Seq::<Seq<u8>>::empty().flatten() =~= Seq::<u8>::empty());
            },
        }
    }
    lemma_list_bytes(entries(graph, file_state, build.ins@));
    lemma_list_bytes(entries(graph, file_state, build.discovered@));
    lemma_list_bytes(entries(graph, file_state, build.outs@));
    assert(ins.flatten() + discovered.flatten() + cmdline.flatten() + rsp.flatten()
        + outs.flatten() =~= files_bytes(entries(graph, file_state, build.ins@)) + seq![
        UNIT_SEPARATOR,
    ] + from_discovered(graph, file_state, build));
}


/// No byte of the UTF-8 encoding of a character ends a string, and only the
/// separator itself is encoded with the separator as its first byte.
proof fn lemma_scalar_bytes(scalar: u32)
    ensures
        encode_scalar(scalar).len() > 0,
        forall|i: int|
            0 <= i < encode_scalar(scalar).len() ==> #[trigger] encode_scalar(scalar)[i]
                != STRING_END,
        encode_scalar(scalar)[0] == UNIT_SEPARATOR ==> scalar == 0x1F,
{
    let low = (scalar & 0x3F) as u8;
    let mid = ((scalar >> 6) & 0x3F) as u8;
    let high = ((scalar >> 12) & 0x3F) as u8;
    assert(0x80u8 | low != 0xFF) by (bit_vector)
        requires
            low == (scalar & 0x3F) as u8,
    ;
    assert(0x80u8 | mid != 0xFF) by (bit_vector)
        requires
            mid == ((scalar >> 6) & 0x3F) as u8,
    ;
    assert(0x80u8 | high != 0xFF) by (bit_vector)
        requires
            high == ((scalar >> 12) & 0x3F) as u8,
    ;
    if has_width_1_encoding(scalar) {
        let first = (scalar & 0x7F) as u8;
        assert(first != 0xFF && (first == 0x1F ==> scalar == 0x1F)) by (bit_vector)
            requires
                first == (scalar & 0x7F) as u8,
                scalar <= 0x7F,
        ;
    } else if has_width_2_encoding(scalar) {
        let bits = ((scalar >> 6) & 0x1F) as u8;
        assert(0xC0u8 | bits != 0xFF && 0xC0u8 | bits != 0x1F) by (bit_vector)
            requires
                bits == ((scalar >> 6) & 0x1F) as u8,
        ;
    } else if has_width_3_encoding(scalar) {
        let bits = ((scalar >> 12) & 0x0F) as u8;
        assert(0xE0u8 | bits != 0xFF && 0xE0u8 | bits != 0x1F) by (bit_vector)
            requires
                bits == ((scalar >> 12) & 0x0F) as u8,
        ;
    } else {
        let bits = ((scalar >> 18) & 0x7) as u8;
        assert(0xF0u8 | bits != 0xFF && 0xF0u8 | bits != 0x1F) by (bit_vector)
            requires
                bits == ((scalar >> 18) & 0x7) as u8,
        ;
    }
}

/// No byte of a text in UTF-8 ends a string.
proof fn lemma_text_has_no_end(text: Seq<char>, i: int)
    requires
        0 <= i < encode_utf8(text).len(),
    ensures
        encode_utf8(text)[i] != STRING_END,
    decreases text.len(),
{
    if text.len() > 0 {
        let first = encode_scalar(text[0] as u32);
        lemma_scalar_bytes(text[0] as u32);
        if i >= first.len() {
            lemma_text_has_no_end(text.drop_first(), i - first.len());
        }
    }
}

/// A text that does not begin with the separator does not begin with it in
/// UTF-8 either.
proof fn lemma_text_begins_plainly(text: Seq<char>)
    requires
        text.len() > 0,
        text[0] != '\u{1f}',
    ensures
        encode_utf8(text).len() > 0,
        encode_utf8(text)[0] != UNIT_SEPARATOR,
{
    lemma_scalar_bytes(text[0] as u32);
    assert(encode_utf8(text)[0] == encode_scalar(text[0] as u32)[0]);
    if encode_utf8(text)[0] == UNIT_SEPARATOR {
        char_u32_cast(text[0], 0x1F);
        char_u32_cast('\u{1f}', 0x1F);
    }
}

/// The bytes of a string tell where it ends: of two rows that are equal and
/// begin with a string each, the strings are the same, and so is what
/// follows them.
proof fn lemma_strings_are_told_apart(
    text: Seq<char>,
    rest: Seq<u8>,
    other: Seq<char>,
    other_rest: Seq<u8>,
)
    requires
        encode_utf8(text) + seq![STRING_END] + rest == encode_utf8(other) + seq![STRING_END]
            + other_rest,
    ensures
        text == other,
        rest == other_rest,
{
    let one = encode_utf8(text);
    let two = encode_utf8(other);
    let left = one + seq![STRING_END] + rest;
    let right = two + seq![STRING_END] + other_rest;
    if one.len() < two.len() {
        lemma_text_has_no_end(other, one.len() as int);
        assert(left[one.len() as int] == STRING_END);
        assert(right[one.len() as int] == two[one.len() as int]);
    } else if two.len() < one.len() {
        lemma_text_has_no_end(text, two.len() as int);
        assert(right[two.len() as int] == STRING_END);
        assert(left[two.len() as int] == one[two.len() as int]);
    }
    assert(left =~= one + (seq![STRING_END] + rest));
    assert(right =~= two + (seq![STRING_END] + other_rest));
    lemma_split(one, seq![STRING_END] + rest, two, seq![STRING_END] + other_rest);
    lemma_split(seq![STRING_END], rest, seq![STRING_END], other_rest);
    encode_utf8_decode_utf8(text);
    encode_utf8_decode_utf8(other);
}

/// The bytes of a file tell where they end: of two rows that are equal and
/// begin with a file each, the files are the same, and so is what follows
/// them.
proof fn lemma_files_are_told_apart(
    file: FileEntry,
    rest: Seq<u8>,
    other: FileEntry,
    other_rest: Seq<u8>,
)
    requires
        file_bytes(file) + rest == file_bytes(other) + other_rest,
    ensures
        file == other,
        rest == other_rest,
{
    lemma_auto_spec_u64_to_from_le_bytes();
    lemma_auto_spec_u32_to_from_le_bytes();
    let secs = spec_u64_to_le_bytes(file.mtime.secs);
    let nanos = spec_u32_to_le_bytes(file.mtime.nanos);
    let secs2 = spec_u64_to_le_bytes(other.mtime.secs);
    let nanos2 = spec_u32_to_le_bytes(other.mtime.nanos);
    assert(file_bytes(file) + rest =~= encode_utf8(file.name) + seq![STRING_END] + (secs + nanos
        + rest));
    assert(file_bytes(other) + other_rest =~= encode_utf8(other.name) + seq![STRING_END] + (secs2
        + nanos2 + other_rest));
    lemma_strings_are_told_apart(
        file.name,
        secs + nanos + rest,
        other.name,
        secs2 + nanos2 + other_rest,
    );
    assert(secs + nanos + rest =~= secs + (nanos + rest));
    assert(secs2 + nanos2 + other_rest =~= secs2 + (nanos2 + other_rest));
    lemma_split(secs, nanos + rest, secs2, nanos2 + other_rest);
    lemma_split(nanos, rest, nanos2, other_rest);
    assert(file.mtime.secs == other.mtime.secs);
    assert(file.mtime.nanos == other.mtime.nanos);
}

/// The bytes of a list of files are those of the first, then those of the
/// others.
proof fn lemma_files_bytes_first(files: Seq<FileEntry>)
    requires
        files.len() > 0,
    ensures
        files_bytes(files) == file_bytes(files[0]) + files_bytes(files.drop_first()),
{
    let records = terse_records(files);
    assert(records.drop_first() =~= terse_records(files.drop_first()));
    assert(records =~= seq![terse_file(files[0])] + terse_records(files.drop_first()));
    lemma_flatten_concat(seq![terse_file(files[0])], terse_records(files.drop_first()));
    seq![terse_file(files[0])].lemma_flatten_one_element();
    lemma_flatten_concat(terse_file(files[0]), terse_records(files.drop_first()).flatten());
    lemma_file_bytes(files[0]);
}

/// Of two rows that are equal and begin with as many files each, the files
/// are the same, and so is what follows them.
proof fn lemma_counted_files_are_told_apart(
    files: Seq<FileEntry>,
    rest: Seq<u8>,
    others: Seq<FileEntry>,
    other_rest: Seq<u8>,
)
    requires
        files.len() == others.len(),
        files_bytes(files) + rest == files_bytes(others) + other_rest,
    ensures
        files == others,
        rest == other_rest,
    decreases files.len(),
{
    if files.len() == 0 {
        assert(files =~= others);
        assert(terse_records(files) =~= Seq::<Seq<Seq<u8>>>::empty());
        assert(files_bytes(files) =~= Seq::<u8>::empty());
        assert(files_bytes(files) + rest =~= rest);
        assert(files_bytes(others) + other_rest =~= other_rest);
    } else {
        lemma_files_bytes_first(files);
        lemma_files_bytes_first(others);
        let tail = files_bytes(files.drop_first()) + rest;
        let other_tail = files_bytes(others.drop_first()) + other_rest;
        assert(files_bytes(files) + rest =~= file_bytes(files[0]) + tail);
        assert(files_bytes(others) + other_rest =~= file_bytes(others[0]) + other_tail);
        lemma_files_are_told_apart(files[0], tail, others[0], other_tail);
        lemma_counted_files_are_told_apart(
            files.drop_first(),
            rest,
            others.drop_first(),
            other_rest,
        );
        assert(files =~= seq![files[0]] + files.drop_first());
        assert(others =~= seq![others[0]] + others.drop_first());
    }
}

/// Of two rows that are equal and begin with as many files and a separator
/// each, the files are the same, and so is what follows the separators.
proof fn lemma_counted_lists_are_told_apart(
    files: Seq<FileEntry>,
    rest: Seq<u8>,
    others: Seq<FileEntry>,
    other_rest: Seq<u8>,
)
    requires
        files.len() == others.len(),
        files_bytes(files) + seq![UNIT_SEPARATOR] + rest == files_bytes(others) + seq![
            UNIT_SEPARATOR,
        ] + other_rest,
    ensures
        files == others,
        rest == other_rest,
{
    let sep = seq![UNIT_SEPARATOR];
    assert(files_bytes(files) + sep + rest =~= files_bytes(files) + (sep + rest));
    assert(files_bytes(others) + sep + other_rest =~= files_bytes(others) + (sep + other_rest));
    lemma_counted_files_are_told_apart(files, sep + rest, others, sep + other_rest);
    lemma_split(sep, rest, sep, other_rest);
}

/// Changing the modification time of any file of an edge changes the bytes
/// that are hashed: where two snapshots of file states give an edge the same
/// bytes, each file of its dirtying inputs, its discovered inputs and its
/// outputs has the same modification time in both.
pub proof fn lemma_mtimes_change_what_is_hashed(
    graph: Graph,
    before: FileState,
    after: FileState,
    build: Build,
)
    requires
        hashed_bytes(&graph, &before, &build) == hashed_bytes(&graph, &after, &build),
    ensures
        entries(&graph, &before, build.ins@) == entries(&graph, &after, build.ins@),
        entries(&graph, &before, build.discovered@) == entries(&graph, &after, build.discovered@),
        entries(&graph, &before, build.outs@) == entries(&graph, &after, build.outs@),
{
    lemma_hashed_bytes(&graph, &before, &build);
    lemma_hashed_bytes(&graph, &after, &build);
    lemma_counted_lists_are_told_apart(
        entries(&graph, &before, build.ins@),
        from_discovered(&graph, &before, &build),
        entries(&graph, &after, build.ins@),
        from_discovered(&graph, &after, &build),
    );
    lemma_counted_lists_are_told_apart(
        entries(&graph, &before, build.discovered@),
        from_cmdline(&graph, &before, &build),
        entries(&graph, &after, build.discovered@),
        from_cmdline(&graph, &after, &build),
    );
    lemma_strings_are_told_apart(
        build.spec_cmdline(),
        seq![UNIT_SEPARATOR] + from_rsp(&graph, &before, &build),
        build.spec_cmdline(),
        seq![UNIT_SEPARATOR] + from_rsp(&graph, &after, &build),
    );
    lemma_split(
        seq![UNIT_SEPARATOR],
        from_rsp(&graph, &before, &build),
        seq![UNIT_SEPARATOR],
        from_rsp(&graph, &after, &build),
    );
    lemma_split(
        rsp_bytes(&build),
        from_outs(&graph, &before, &build),
        rsp_bytes(&build),
        from_outs(&graph, &after, &build),
    );
    lemma_counted_lists_are_told_apart(
        entries(&graph, &before, build.outs@),
        Seq::empty(),
        entries(&graph, &after, build.outs@),
        Seq::empty(),
    );
}

/// Changing the response file of an edge changes the bytes that are hashed:
/// where two edges have the same files and the same command line, and the
/// same bytes are hashed of both, then both have a response file of the same
/// content, or neither has one.
pub proof fn lemma_rsp_changes_what_is_hashed(
    graph: Graph,
    file_state: FileState,
    build: Build,
    other: Build,
)
    requires
        build.ins@ == other.ins@,
        build.discovered@ == other.discovered@,
        build.outs@ == other.outs@,
        build.spec_cmdline() == other.spec_cmdline(),
        hashed_bytes(&graph, &file_state, &build) == hashed_bytes(&graph, &file_state, &other),
    ensures
        rsp_content(&build) == rsp_content(&other),
{
    let tail = from_outs(&graph, &file_state, &build);
    assert(tail == from_outs(&graph, &file_state, &other));
    lemma_hashed_bytes(&graph, &file_state, &build);
    lemma_hashed_bytes(&graph, &file_state, &other);
    lemma_counted_lists_are_told_apart(
        entries(&graph, &file_state, build.ins@),
        from_discovered(&graph, &file_state, &build),
        entries(&graph, &file_state, other.ins@),
        from_discovered(&graph, &file_state, &other),
    );
    lemma_counted_lists_are_told_apart(
        entries(&graph, &file_state, build.discovered@),
        from_cmdline(&graph, &file_state, &build),
        entries(&graph, &file_state, other.discovered@),
        from_cmdline(&graph, &file_state, &other),
    );
    lemma_strings_are_told_apart(
        build.spec_cmdline(),
        seq![UNIT_SEPARATOR] + from_rsp(&graph, &file_state, &build),
        other.spec_cmdline(),
        seq![UNIT_SEPARATOR] + from_rsp(&graph, &file_state, &other),
    );
    lemma_split(
        seq![UNIT_SEPARATOR],
        from_rsp(&graph, &file_state, &build),
        seq![UNIT_SEPARATOR],
        from_rsp(&graph, &file_state, &other),
    );
    assert(rsp_bytes(&build).len() == rsp_bytes(&other).len()) by {
        assert((rsp_bytes(&build) + tail).len() == (rsp_bytes(&other) + tail).len());
    }
    lemma_split(rsp_bytes(&build), tail, rsp_bytes(&other), tail);
    match (build.rspfile, other.rspfile) {
        (Some(one), Some(two)) => {
            lemma_split(
                encode_utf8(one.content@),
                seq![STRING_END],
                encode_utf8(two.content@),
                seq![STRING_END],
            );
            encode_utf8_decode_utf8(one.content@);
            encode_utf8_decode_utf8(two.content@);
        },
        _ => {},
    }
}

/// True when the name of `file` does not begin with the separator.
pub open spec fn plain_name(file: FileEntry) -> bool {
    file.name.len() > 0 ==> file.name[0] != '\u{1f}'
}

/// True when no file of `files` has a name that begins with the separator.
pub open spec fn plain_names(files: Seq<FileEntry>) -> bool {
    forall|i: int| 0 <= i < files.len() ==> plain_name(#[trigger] files[i])
}

/// The separator tells where a list of files ends: of two rows that are
/// equal and begin with a list of files and its separator each, the lists
/// hold the same files, and what follows them is the same, as long as no
/// name begins with the separator.
proof fn lemma_lists_are_told_apart(
    files: Seq<FileEntry>,
    rest: Seq<u8>,
    others: Seq<FileEntry>,
    other_rest: Seq<u8>,
)
    requires
        plain_names(files),
        plain_names(others),
        files_bytes(files) + seq![UNIT_SEPARATOR] + rest == files_bytes(others) + seq![
            UNIT_SEPARATOR,
        ] + other_rest,
    ensures
        files == others,
        rest == other_rest,
    decreases files.len() + others.len(),
{
    let sep = seq![UNIT_SEPARATOR];
    let left = files_bytes(files) + sep + rest;
    let right = files_bytes(others) + sep + other_rest;
    if files.len() == 0 && others.len() == 0 {
        assert(files =~= others);
        assert(terse_records(files) =~= Seq::<Seq<Seq<u8>>>::empty());
        assert(files_bytes(files) =~= Seq::<u8>::empty());
        assert(left =~= sep + rest);
        assert(right =~= sep + other_rest);
        lemma_split(sep, rest, sep, other_rest);
    } else if files.len() == 0 {
        assert(terse_records(files) =~= Seq::<Seq<Seq<u8>>>::empty());
        assert(files_bytes(files) =~= Seq::<u8>::empty());
        assert(left[0] == UNIT_SEPARATOR);
        lemma_begins_plainly(others);
        assert(right[0] == files_bytes(others)[0]);
    } else if others.len() == 0 {
        assert(terse_records(others) =~= Seq::<Seq<Seq<u8>>>::empty());
        assert(files_bytes(others) =~= Seq::<u8>::empty());
        assert(right[0] == UNIT_SEPARATOR);
        lemma_begins_plainly(files);
        assert(left[0] == files_bytes(files)[0]);
    } else {
        lemma_files_bytes_first(files);
        lemma_files_bytes_first(others);
        let tail = files_bytes(files.drop_first()) + sep + rest;
        let other_tail = files_bytes(others.drop_first()) + sep + other_rest;
        assert(left =~= file_bytes(files[0]) + tail);
        assert(right =~= file_bytes(others[0]) + other_tail);
        lemma_files_are_told_apart(files[0], tail, others[0], other_tail);
        lemma_plain_names_drop_first(files);
        lemma_plain_names_drop_first(others);
        lemma_lists_are_told_apart(files.drop_first(), rest, others.drop_first(), other_rest);
        assert(files =~= seq![files[0]] + files.drop_first());
        assert(others =~= seq![others[0]] + others.drop_first());
    }
}

/// What holds of the names of a list holds of all but the first.
proof fn lemma_plain_names_drop_first(files: Seq<FileEntry>)
    requires
        files.len() > 0,
        plain_names(files),
    ensures
        plain_names(files.drop_first()),
{
    assert forall|i: int| 0 <= i < files.drop_first().len() implies plain_name(
        #[trigger] files.drop_first()[i],
    ) by {
        assert(files.drop_first()[i] == files[i + 1]);
    }
}

/// The bytes of a list of files whose names do not begin with the separator
/// do not begin with it either.
proof fn lemma_begins_plainly(files: Seq<FileEntry>)
    requires
        files.len() > 0,
        plain_names(files),
    ensures
        files_bytes(files).len() > 0,
        files_bytes(files)[0] != UNIT_SEPARATOR,
{
    lemma_files_bytes_first(files);
    let name = files[0].name;
    if name.len() > 0 {
        lemma_text_begins_plainly(name);
        assert(file_bytes(files[0])[0] == encode_utf8(name)[0]);
    } else {
        assert(encode_utf8(name) =~= Seq::<u8>::empty());
        assert(file_bytes(files[0])[0] == STRING_END);
    }
}

/// The separators tell the lists of an edge apart: where no file name begins
/// with the separator, two edges of which the same bytes are hashed, and
/// which both have a response file or both have none, agree in everything
/// that is hashed. Their dirtying inputs are the same files, with the same
/// names and modification times and in the same order, and so are their
/// discovered inputs and their outputs; their command lines are the same,
/// and so are the contents of their response files. Moving a file from one
/// list to another, or the end of one name to the start of the next, changes
/// the bytes that are hashed.
pub proof fn lemma_separators_tell_lists_apart(
    graph: Graph,
    file_state: FileState,
    build: Build,
    other_graph: Graph,
    other_state: FileState,
    other: Build,
)
    requires
        plain_names(entries(&graph, &file_state, build.ins@)),
        plain_names(entries(&graph, &file_state, build.discovered@)),
        plain_names(entries(&graph, &file_state, build.outs@)),
        plain_names(entries(&other_graph, &other_state, other.ins@)),
        plain_names(entries(&other_graph, &other_state, other.discovered@)),
        plain_names(entries(&other_graph, &other_state, other.outs@)),
        build.rspfile is Some <==> other.rspfile is Some,
        hashed_bytes(&graph, &file_state, &build) == hashed_bytes(
            &other_graph,
            &other_state,
            &other,
        ),
    ensures
        entries(&graph, &file_state, build.ins@) == entries(&other_graph, &other_state, other.ins@),
        entries(&graph, &file_state, build.discovered@) == entries(
            &other_graph,
            &other_state,
            other.discovered@,
        ),
        entries(&graph, &file_state, build.outs@) == entries(
            &other_graph,
            &other_state,
            other.outs@,
        ),
        build.spec_cmdline() == other.spec_cmdline(),
        rsp_content(&build) == rsp_content(&other),
{
    lemma_hashed_bytes(&graph, &file_state, &build);
    lemma_hashed_bytes(&other_graph, &other_state, &other);
    lemma_lists_are_told_apart(
        entries(&graph, &file_state, build.ins@),
        from_discovered(&graph, &file_state, &build),
        entries(&other_graph, &other_state, other.ins@),
        from_discovered(&other_graph, &other_state, &other),
    );
    lemma_lists_are_told_apart(
        entries(&graph, &file_state, build.discovered@),
        from_cmdline(&graph, &file_state, &build),
        entries(&other_graph, &other_state, other.discovered@),
        from_cmdline(&other_graph, &other_state, &other),
    );
    lemma_strings_are_told_apart(
        build.spec_cmdline(),
        seq![UNIT_SEPARATOR] + from_rsp(&graph, &file_state, &build),
        other.spec_cmdline(),
        seq![UNIT_SEPARATOR] + from_rsp(&other_graph, &other_state, &other),
    );
    lemma_split(
        seq![UNIT_SEPARATOR],
        from_rsp(&graph, &file_state, &build),
        seq![UNIT_SEPARATOR],
        from_rsp(&other_graph, &other_state, &other),
    );
    let outs = from_outs(&graph, &file_state, &build);
    let outs2 = from_outs(&other_graph, &other_state, &other);
    match (build.rspfile, other.rspfile) {
        (Some(one), Some(two)) => {
            lemma_strings_are_told_apart(one.content@, outs, two.content@, outs2);
        },
        _ => {
            assert(from_rsp(&graph, &file_state, &build) =~= outs);
            assert(from_rsp(&other_graph, &other_state, &other) =~= outs2);
        },
    }
    lemma_lists_are_told_apart(
        entries(&graph, &file_state, build.outs@),
        Seq::empty(),
        entries(&other_graph, &other_state, other.outs@),
        Seq::empty(),
    );
}

} // verus!
