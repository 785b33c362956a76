//! Where a recording lives on disk: its chunk files below `chunks/<session>/`, its finalized
//! file below `final/`, and the recorder page below the web directory.
use vstd::prelude::*;

use crate::path::{join, join_path, last_component_start, parent, trimmed};
use crate::text::{
    joined, joined3, lemma_cut_is_unique, lemma_padded_numeral_reads_back, starts_with,
    zero_padded, zero_padded_text,
};

verus! {

/// A session id, or an entry of a directory, that is a single name: not empty and without a slash.
pub open spec fn is_name(id: Seq<char>) -> bool {
    &&& id.len() > 0
    &&& !id.contains('/')
}

/// A session id that is a name without a dot, as every generated id is.
pub open spec fn plain(id: Seq<char>) -> bool {
    is_name(id) && !id.contains('.')
}

/// The directory of a session's chunks.
pub open spec fn session_dir(data_dir: Seq<char>, session_id: Seq<char>) -> Seq<char> {
    join(join(data_dir, "chunks"@), session_id)
}

/// The name of a chunk file: the index in decimal, zero filled to eight digits.
pub open spec fn chunk_name(idx: u32) -> Seq<char> {
    zero_padded(idx as nat, 8) + ".chunk"@
}

/// The file of one chunk.
pub open spec fn chunk_file(data_dir: Seq<char>, session_id: Seq<char>, idx: u32) -> Seq<char> {
    join(session_dir(data_dir, session_id), chunk_name(idx))
}

/// The directory of the finalized files.
pub open spec fn final_dir(data_dir: Seq<char>) -> Seq<char> {
    join(data_dir, "final"@)
}

/// The finalized file of a session.
pub open spec fn output_file(
    data_dir: Seq<char>,
    session_id: Seq<char>,
    extension: Seq<char>,
) -> Seq<char> {
    join(final_dir(data_dir), session_id + "."@ + extension)
}

/// Whether a name among the finalized files is one of a session's.
pub open spec fn is_output_name(name: Seq<char>, session_id: Seq<char>) -> bool {
    (session_id + "."@).is_prefix_of(name)
}

/// Whether a path leads to where the finalized files of a session are listed.
pub open spec fn is_output_path(
    data_dir: Seq<char>,
    session_id: Seq<char>,
    path: Seq<char>,
) -> bool {
    output_file(data_dir, session_id, ""@).is_prefix_of(path)
}

/// The page the recorder is served from.
pub open spec fn recorder_page(web_dir: Seq<char>) -> Seq<char> {
    join(web_dir, "index.html"@)
}

/// The directory of a session's chunks.
pub fn session_dir_path(data_dir: &str, session_id: &str) -> (r: String)
    ensures
        r@ == session_dir(data_dir@, session_id@),
{
    let chunks = join_path(data_dir, "chunks");
    join_path(chunks.as_str(), session_id)
}

/// The file of one chunk.
pub fn chunk_file_path(data_dir: &str, session_id: &str, idx: u32) -> (r: String)
    ensures
        r@ == chunk_file(data_dir@, session_id@, idx),
{
    let dir = session_dir_path(data_dir, session_id);
    let digits = zero_padded_text(idx, 8);
    let name = joined(digits.as_str(), ".chunk");
    join_path(dir.as_str(), name.as_str())
}

/// The directory of the finalized files.
pub fn final_dir_path(data_dir: &str) -> (r: String)
    ensures
        r@ == final_dir(data_dir@),
{
    join_path(data_dir, "final")
}

/// The finalized file of a session.
pub fn output_file_path(data_dir: &str, session_id: &str, extension: &str) -> (r: String)
    ensures
        r@ == output_file(data_dir@, session_id@, extension@),
{
    let dir = final_dir_path(data_dir);
    let name = joined3(session_id, ".", extension);
    join_path(dir.as_str(), name.as_str())
}

/// Whether a path leads to where the finalized files of a session are listed.
pub fn leads_to_output(data_dir: &str, session_id: &str, path: &str) -> (r: bool)
    ensures
        r == is_output_path(data_dir@, session_id@, path@),
{
    let prefix = output_file_path(data_dir, session_id, "");
    starts_with(path, prefix.as_str())
}

/// The page the recorder is served from.
pub fn recorder_page_path(web_dir: &str) -> (r: String)
    ensures
        r@ == recorder_page(web_dir@),
{
    join_path(web_dir, "index.html")
}

/// `dir` up to and with the separator behind it.
spec fn below(dir: Seq<char>) -> Seq<char> {
    if dir.len() == 0 || dir.last() == '/' {
        dir
    } else {
        dir.push('/')
    }
}

proof fn lemma_chunk_name(idx: u32)
    ensures
        chunk_name(idx).len() > 0,
        !chunk_name(idx).contains('/'),
        chunk_name(idx).last() == 'k',
        chunk_name(idx) =~= zero_padded(idx as nat, 8).push('.') + "chunk"@,
        !zero_padded(idx as nat, 8).contains('.'),
{
    reveal_strlit(".chunk");
    reveal_strlit("chunk");
    lemma_padded_numeral_reads_back(idx as nat, 8);
    let digits = zero_padded(idx as nat, 8);
    let name = chunk_name(idx);
    assert forall|i: int| 0 <= i < name.len() implies name[i] != '/' by {
        if i < digits.len() {
            assert(name[i] == digits[i]);
        } else {
            assert(name[i] == ".chunk"@[i - digits.len()]);
        }
    }
}

proof fn lemma_chunk_file_parts(data_dir: Seq<char>, session_id: Seq<char>, idx: u32)
    requires
        is_name(session_id),
    ensures
        chunk_file(data_dir, session_id, idx) == below(data_dir) + ("chunks/"@ + (session_id.push(
            '/',
        ) + chunk_name(idx))),
        session_dir(data_dir, session_id) == below(data_dir) + ("chunks/"@ + session_id),
{
    reveal_strlit("chunks");
    reveal_strlit("chunks/");
    lemma_chunk_name(idx);
    assert(session_id.contains(session_id[0]));
    assert(session_id.contains(session_id.last()));
    let name = chunk_name(idx);
    assert(name.contains(name[0]));
    let chunks = join(data_dir, "chunks"@);
    assert(chunks =~= below(data_dir) + "chunks"@);
    assert(chunks.last() == 's');
    assert(session_dir(data_dir, session_id) =~= below(data_dir) + ("chunks/"@ + session_id));
    assert(chunk_file(data_dir, session_id, idx) =~= below(data_dir) + ("chunks/"@ + (
    session_id.push('/') + name)));
}

proof fn lemma_output_file_parts(data_dir: Seq<char>, session_id: Seq<char>, extension: Seq<char>)
    requires
        is_name(session_id),
    ensures
        output_file(data_dir, session_id, extension) == below(data_dir) + ("final/"@ + (
        session_id.push('.') + extension)),
{
    reveal_strlit("final");
    reveal_strlit("final/");
    reveal_strlit(".");
    assert(session_id.contains(session_id[0]));
    let dir = join(data_dir, "final"@);
    assert(dir =~= below(data_dir) + "final"@);
    assert(dir.last() == 'l');
    assert(session_id + "."@ + extension =~= session_id.push('.') + extension);
    assert(output_file(data_dir, session_id, extension) =~= below(data_dir) + ("final/"@ + (
    session_id.push('.') + extension)));
}

/// What stands directly below the directory of the finalized files.
pub proof fn lemma_below_final_dir(data_dir: Seq<char>, name: Seq<char>)
    requires
        name.len() > 0,
        name[0] != '/',
    ensures
        join(final_dir(data_dir), name) == final_dir(data_dir).push('/') + name,
{
    reveal_strlit("final");
    let dir = final_dir(data_dir);
    assert(dir =~= below(data_dir) + "final"@);
    assert(dir.last() == 'l');
}

proof fn lemma_same_prefix(prefix: Seq<char>, a: Seq<char>, b: Seq<char>)
    requires
        prefix + a == prefix + b,
    ensures
        a == b,
{
    assert(a =~= (prefix + a).skip(prefix.len() as int));
    assert(b =~= (prefix + b).skip(prefix.len() as int));
}

/// Two chunks have the same file only if they are the same chunk of the same session.
pub proof fn law_chunk_files_are_distinct(
    data_dir: Seq<char>,
    session_id: Seq<char>,
    idx: u32,
    other_id: Seq<char>,
    other_idx: u32,
)
    requires
        is_name(session_id),
        is_name(other_id),
        chunk_file(data_dir, session_id, idx) == chunk_file(data_dir, other_id, other_idx),
    ensures
        session_id == other_id,
        idx == other_idx,
{
    lemma_chunk_file_parts(data_dir, session_id, idx);
    lemma_chunk_file_parts(data_dir, other_id, other_idx);
    let rest = session_id.push('/') + chunk_name(idx);
    let other_rest = other_id.push('/') + chunk_name(other_idx);
    lemma_same_prefix(below(data_dir), "chunks/"@ + rest, "chunks/"@ + other_rest);
    lemma_same_prefix("chunks/"@, rest, other_rest);
    lemma_cut_is_unique(session_id, chunk_name(idx), other_id, chunk_name(other_idx), '/');
    lemma_chunk_name(idx);
    lemma_chunk_name(other_idx);
    let digits = zero_padded(idx as nat, 8);
    let other_digits = zero_padded(other_idx as nat, 8);
    lemma_cut_is_unique(digits, "chunk"@, other_digits, "chunk"@, '.');
    lemma_padded_numeral_reads_back(idx as nat, 8);
    lemma_padded_numeral_reads_back(other_idx as nat, 8);
}

/// Two finalized files are the same only if session and extension are.
pub proof fn law_output_files_are_distinct(
    data_dir: Seq<char>,
    session_id: Seq<char>,
    extension: Seq<char>,
    other_id: Seq<char>,
    other_extension: Seq<char>,
)
    requires
        plain(session_id),
        plain(other_id),
        output_file(data_dir, session_id, extension) == output_file(
            data_dir,
            other_id,
            other_extension,
        ),
    ensures
        session_id == other_id,
        extension == other_extension,
{
    lemma_output_file_parts(data_dir, session_id, extension);
    lemma_output_file_parts(data_dir, other_id, other_extension);
    let rest = session_id.push('.') + extension;
    let other_rest = other_id.push('.') + other_extension;
    lemma_same_prefix(below(data_dir), "final/"@ + rest, "final/"@ + other_rest);
    lemma_same_prefix("final/"@, rest, other_rest);
    lemma_cut_is_unique(session_id, extension, other_id, other_extension, '.');
}

/// No finalized file is a chunk file, of the same session or of another.
pub proof fn law_output_file_is_no_chunk_file(
    data_dir: Seq<char>,
    session_id: Seq<char>,
    extension: Seq<char>,
    other_id: Seq<char>,
    idx: u32,
)
    requires
        is_name(session_id),
        is_name(other_id),
    ensures
        output_file(data_dir, session_id, extension) != chunk_file(data_dir, other_id, idx),
{
    lemma_output_file_parts(data_dir, session_id, extension);
    lemma_chunk_file_parts(data_dir, other_id, idx);
    reveal_strlit("final/");
    reveal_strlit("chunks/");
    let rest = "final/"@ + (session_id.push('.') + extension);
    let other_rest = "chunks/"@ + (other_id.push('/') + chunk_name(idx));
    assert(rest[0] == 'f');
    assert(other_rest[0] == 'c');
    if below(data_dir) + rest == below(data_dir) + other_rest {
        lemma_same_prefix(below(data_dir), rest, other_rest);
    }
}

/// Whether `path` is the path of something inside the directory `dir`.
pub open spec fn inside(path: Seq<char>, dir: Seq<char>) -> bool {
    dir.push('/').is_prefix_of(path)
}

/// Whether `path` is the path of something inside the directory `dir`.
pub fn is_inside(path: &str, dir: &str) -> (r: bool)
    ensures
        r == inside(path@, dir@),
{
    let prefix = joined(dir, "/");
    proof {
        reveal_strlit("/");
        assert(prefix@ =~= dir@.push('/'));
    }
    starts_with(path, prefix.as_str())
}

/// A chunk file lies inside the directory of its own session and of no other.
pub proof fn law_session_dir_holds_own_chunks(
    data_dir: Seq<char>,
    session_id: Seq<char>,
    idx: u32,
    other_id: Seq<char>,
)
    requires
        is_name(session_id),
        is_name(other_id),
    ensures
        inside(chunk_file(data_dir, session_id, idx), session_dir(data_dir, other_id))
            <==> session_id == other_id,
{
    lemma_chunk_file_parts(data_dir, session_id, idx);
    lemma_chunk_file_parts(data_dir, other_id, idx);
    let file = chunk_file(data_dir, session_id, idx);
    let dir = session_dir(data_dir, other_id);
    let top = below(data_dir) + "chunks/"@;
    assert(dir.push('/') =~= top + other_id.push('/'));
    assert(file =~= top + (session_id.push('/') + chunk_name(idx)));
    if inside(file, dir) {
        let rest = file.skip((dir.len() + 1) as int);
        assert(file =~= dir.push('/') + rest);
        assert(file =~= top + (other_id.push('/') + rest));
        lemma_same_prefix(
            top,
            session_id.push('/') + chunk_name(idx),
            other_id.push('/') + rest,
        );
        lemma_cut_is_unique(session_id, chunk_name(idx), other_id, rest, '/');
    }
    if session_id == other_id {
        assert(file =~= dir.push('/') + chunk_name(idx));
    }
}

/// No finalized file lies inside the chunk directory of any session, nor in its place.
pub proof fn law_output_file_is_in_no_session_dir(
    data_dir: Seq<char>,
    session_id: Seq<char>,
    extension: Seq<char>,
    other_id: Seq<char>,
)
    requires
        is_name(session_id),
        is_name(other_id),
    ensures
        !inside(output_file(data_dir, session_id, extension), session_dir(data_dir, other_id)),
        output_file(data_dir, session_id, extension) != session_dir(data_dir, other_id),
{
    lemma_output_file_parts(data_dir, session_id, extension);
    lemma_chunk_file_parts(data_dir, other_id, 0);
    reveal_strlit("final/");
    reveal_strlit("chunks/");
    let file = output_file(data_dir, session_id, extension);
    let dir = session_dir(data_dir, other_id);
    let at = below(data_dir).len() as int;
    assert(file[at] == 'f');
    assert(dir[at] == 'c');
    assert(dir.push('/')[at] == 'c');
}

/// The finalized files of a session are those whose name, or the name of the directory below the
/// finalized files that they are in, begins with the session's id and a dot.
pub proof fn law_output_names_tell_the_session(
    data_dir: Seq<char>,
    session_id: Seq<char>,
    name: Seq<char>,
    path: Seq<char>,
)
    requires
        is_name(session_id),
        is_name(name),
        path == join(final_dir(data_dir), name) || inside(path, join(final_dir(data_dir), name)),
    ensures
        is_output_name(name, session_id) <==> exists|extension: Seq<char>|
            path == #[trigger] output_file(data_dir, session_id, extension),
{
    reveal_strlit(".");
    let top = final_dir(data_dir).push('/');
    let head = session_id + "."@;
    assert(name.contains(name[0]));
    assert(session_id.contains(session_id[0]));
    lemma_below_final_dir(data_dir, name);
    let rest = path.skip(top.len() as int);
    if inside(path, join(final_dir(data_dir), name)) {
        let tail = path.skip(((top + name).len() + 1) as int);
        assert(path =~= (top + name).push('/') + tail);
        assert(rest =~= name.push('/') + tail);
    } else {
        assert(rest =~= name);
    }
    assert(path =~= top + rest);
    if is_output_name(name, session_id) {
        let extension = rest.skip(head.len() as int);
        assert(rest =~= head + extension) by {
            assert forall|i: int| 0 <= i < head.len() implies rest[i] == head[i] by {
                assert(name[i] == head[i]);
                if rest != name {
                    assert(name.push('/')[i] == rest[i]);
                }
            }
        }
        lemma_below_final_dir(data_dir, head + extension);
        assert(path == output_file(data_dir, session_id, extension));
    }
    if exists|extension: Seq<char>|
        path == #[trigger] output_file(data_dir, session_id, extension) {
        let extension = choose|extension: Seq<char>|
            path == #[trigger] output_file(data_dir, session_id, extension);
        lemma_below_final_dir(data_dir, head + extension);
        lemma_same_prefix(top, rest, head + extension);
        if rest != name {
            assert(rest[name.len() as int] == name.push('/')[name.len() as int]);
            if name.len() < head.len() {
                assert(head[name.len() as int] == '/');
                assert(session_id.contains(head[name.len() as int]));
            }
            assert forall|i: int| 0 <= i < head.len() implies name[i] == head[i] by {
                assert(name.push('/')[i] == rest[i]);
            }
        }
        assert(head =~= name.take(head.len() as int));
    }
}

/// The path of every finalized file leads to where those of its session are listed.
pub proof fn law_output_file_is_listed(
    data_dir: Seq<char>,
    session_id: Seq<char>,
    extension: Seq<char>,
)
    requires
        is_name(session_id),
    ensures
        is_output_path(data_dir, session_id, output_file(data_dir, session_id, extension)),
{
    reveal_strlit("");
    assert(session_id.contains(session_id[0]));
    let file = output_file(data_dir, session_id, extension);
    let prefix = output_file(data_dir, session_id, ""@);
    lemma_below_final_dir(data_dir, session_id + "."@ + extension);
    lemma_below_final_dir(data_dir, session_id + "."@ + ""@);
    assert(file.take(prefix.len() as int) =~= prefix);
}

/// Every finalized file is inside the directory of the finalized files.
pub proof fn law_output_file_is_in_final_dir(
    data_dir: Seq<char>,
    session_id: Seq<char>,
    extension: Seq<char>,
)
    requires
        is_name(session_id),
    ensures
        inside(output_file(data_dir, session_id, extension), final_dir(data_dir)),
{
    assert(session_id.contains(session_id[0]));
    lemma_below_final_dir(data_dir, session_id + "."@ + extension);
    let dir = final_dir(data_dir).push('/');
    assert(output_file(data_dir, session_id, extension).take(dir.len() as int) =~= dir);
}

proof fn lemma_last_component_start(dir: Seq<char>, name: Seq<char>)
    requires
        !name.contains('/'),
        dir.len() == 0 || dir.last() == '/',
    ensures
        last_component_start(dir + name) == dir.len(),
    decreases name.len(),
{
    if name.len() > 0 {
        assert(name.contains(name.last()));
        assert forall|c: char| name.drop_last().contains(c) implies name.contains(c) by {
            let i = choose|i: int| 0 <= i < name.drop_last().len() && name.drop_last()[i] == c;
            assert(name[i] == c);
        }
        lemma_last_component_start(dir, name.drop_last());
        assert((dir + name).drop_last() =~= dir + name.drop_last());
    } else {
        assert(dir + name =~= dir);
    }
}

/// The directory that holds a chunk file is the directory of its session.
pub proof fn law_chunk_file_stands_in_session_dir(
    data_dir: Seq<char>,
    session_id: Seq<char>,
    idx: u32,
)
    ensures
        parent(chunk_file(data_dir, session_id, idx)) == Some(
            trimmed(session_dir(data_dir, session_id)),
        ),
{
    lemma_chunk_name(idx);
    let name = chunk_name(idx);
    let dir = session_dir(data_dir, session_id);
    let file = chunk_file(data_dir, session_id, idx);
    assert(name.contains(name[0]));
    assert(file =~= below(dir) + name);
    assert(file.last() == 'k');
    assert(file != seq!['/']) by {
        assert(seq!['/'].last() == '/');
    }
    lemma_last_component_start(below(dir), name);
    assert(file.take(below(dir).len() as int) =~= below(dir));
    if dir.len() > 0 && dir.last() != '/' {
        assert(below(dir).drop_last() =~= dir);
    }
}

/// A chunk file of a session stands directly in the session's directory, under the name of the
/// chunk.
pub proof fn law_chunk_file_is_in_session_dir(
    data_dir: Seq<char>,
    session_id: Seq<char>,
    idx: u32,
)
    requires
        plain(session_id),
    ensures
        is_name(chunk_name(idx)),
        chunk_file(data_dir, session_id, idx) == session_dir(data_dir, session_id).push('/')
            + chunk_name(idx),
        parent(chunk_file(data_dir, session_id, idx)) == Some(session_dir(data_dir, session_id)),
{
    let dir = session_dir(data_dir, session_id);
    lemma_chunk_name(idx);
    lemma_chunk_file_parts(data_dir, session_id, idx);
    law_chunk_file_stands_in_session_dir(data_dir, session_id, idx);
    assert(session_id.contains(session_id.last()));
    assert(dir.last() == session_id.last());
    assert(trimmed(dir) == dir);
    assert(chunk_file(data_dir, session_id, idx) =~= dir.push('/') + chunk_name(idx));
}

/// The finalized file of a session stands directly in the directory of the finalized files, under
/// the session's id and the extension.
pub proof fn law_output_file_stands_in_final_dir(
    data_dir: Seq<char>,
    session_id: Seq<char>,
    extension: Seq<char>,
)
    requires
        is_name(session_id),
        !extension.contains('/'),
    ensures
        is_name(session_id.push('.') + extension),
        output_file(data_dir, session_id, extension) == final_dir(data_dir).push('/') + (
        session_id.push('.') + extension),
        parent(output_file(data_dir, session_id, extension)) == Some(final_dir(data_dir)),
{
    reveal_strlit("final");
    reveal_strlit(".");
    let name = session_id.push('.') + extension;
    let dir = final_dir(data_dir);
    let top = dir.push('/');
    let file = output_file(data_dir, session_id, extension);
    assert(session_id.contains(session_id[0]));
    assert(session_id.contains(session_id.last()));
    assert(name =~= session_id + "."@ + extension);
    assert forall|i: int| 0 <= i < name.len() implies name[i] != '/' by {
        if i < session_id.len() {
            assert(session_id.contains(session_id[i]));
        } else if i > session_id.len() {
            assert(extension.contains(extension[i - session_id.len() - 1]));
        }
    }
    lemma_below_final_dir(data_dir, name);
    assert(file == top + name);
    assert(file.last() == name.last());
    assert(name.len() >= 2);
    assert(file[file.len() - 2] == name[name.len() - 2]);
    assert(trimmed(file) == file);
    assert(file.len() > 1);
    assert(seq!['/'].len() == 1);
    lemma_last_component_start(top, name);
    assert(file.take(top.len() as int) =~= top);
    assert(top.drop_last() =~= dir);
    assert(dir =~= below(data_dir) + "final"@);
    assert(dir.last() == 'l');
    assert(trimmed(dir) == dir);
}

} // verus!
