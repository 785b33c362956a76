//! Where things are kept, written out, and what the settings come to.
use vstd::prelude::*;

use crate::config::{configured, ConfigView, Environment};
use crate::finalize::extension_or_default;
use crate::layout::{
    chunk_file, chunk_name, final_dir, is_name, output_file, recorder_page, session_dir,
};
use crate::path::{absolute, join, last_component_start, parent, trimmed};
use crate::text::{
    decimal, is_numeral, lemma_padded_numeral_reads_back, number_in, numeral_value, opt_text,
    zero_padded,
};

verus! {

/// `name` in the directory `dir`, with one slash between.
pub open spec fn entry(dir: Seq<char>, name: Seq<char>) -> Seq<char> {
    if dir.len() == 0 || dir.last() == '/' {
        dir + name
    } else {
        dir + "/"@ + name
    }
}

proof fn lemma_entry(dir: Seq<char>, name: Seq<char>)
    requires
        !absolute(name),
    ensures
        join(dir, name) == entry(dir, name),
{
    reveal_strlit("/");
    assert(dir + "/"@ =~= dir.push('/'));
}

/// The chunks of a session are in `chunks/`, in a directory of the session's id; its finalized
/// file is in `final/`, under the id and the extension, which is `webm` where none is asked for;
/// and the page to record with is the `index.html` of the web directory.
pub proof fn law_files_are_where_they_should_be(
    data_dir: Seq<char>,
    web_dir: Seq<char>,
    id: Seq<char>,
    idx: u32,
    extension: Seq<char>,
)
    requires
        is_name(id),
    ensures
        session_dir(data_dir, id) == entry(data_dir, "chunks/"@ + id),
        chunk_file(data_dir, id, idx) == entry(data_dir, "chunks/"@ + id + "/"@ + chunk_name(idx)),
        final_dir(data_dir) == entry(data_dir, "final"@),
        output_file(data_dir, id, extension_or_default(Some(extension))) == entry(
            data_dir,
            "final/"@ + id + "."@ + extension,
        ),
        output_file(data_dir, id, extension_or_default(None)) == entry(
            data_dir,
            "final/"@ + id + ".webm"@,
        ),
        recorder_page(web_dir) == entry(web_dir, "index.html"@),
{
    reveal_strlit("/");
    reveal_strlit("chunks");
    reveal_strlit("chunks/");
    reveal_strlit("final");
    reveal_strlit("final/");
    reveal_strlit(".");
    reveal_strlit("webm");
    reveal_strlit(".webm");
    reveal_strlit("index.html");
    law_chunk_name_is_the_index(idx);
    let name = chunk_name(idx);
    assert(id.contains(id[0]));
    assert(id.contains(id.last()));
    lemma_entry(data_dir, "chunks"@);
    lemma_entry(data_dir, "final"@);
    lemma_entry(web_dir, "index.html"@);
    let chunks = join(data_dir, "chunks"@);
    lemma_entry(chunks, id);
    lemma_entry(session_dir(data_dir, id), name);
    assert(chunks.last() == 's');
    assert(session_dir(data_dir, id) =~= entry(data_dir, "chunks/"@ + id));
    assert(chunk_file(data_dir, id, idx) =~= entry(data_dir, "chunks/"@ + id + "/"@ + name));
    lemma_entry(final_dir(data_dir), id + "."@ + extension);
    lemma_entry(final_dir(data_dir), id + "."@ + "webm"@);
    assert(final_dir(data_dir).last() == 'l');
    assert(output_file(data_dir, id, extension) =~= entry(
        data_dir,
        "final/"@ + id + "."@ + extension,
    ));
    assert(output_file(data_dir, id, "webm"@) =~= entry(data_dir, "final/"@ + id + ".webm"@));
}

proof fn lemma_decimal_has_no_leading_zero(n: nat)
    requires
        n > 0,
    ensures
        decimal(n).len() > 0,
        decimal(n)[0] != '0',
    decreases n,
{
    if n >= 10 {
        lemma_decimal_has_no_leading_zero(n / 10);
        assert(decimal(n)[0] == decimal(n / 10)[0]);
    }
}

/// The file of a chunk is named by its index in decimal, in at least eight digits and in no more
/// than it takes, with `.chunk` behind.
pub proof fn law_chunk_name_is_the_index(idx: u32)
    ensures
        ({
            let digits = chunk_name(idx).take(chunk_name(idx).len() - 6);
            &&& chunk_name(idx) == digits + ".chunk"@
            &&& is_numeral(digits)
            &&& numeral_value(digits) == idx
            &&& digits.len() >= 8
            &&& digits.len() > 8 ==> digits[0] != '0'
        }),
        !absolute(chunk_name(idx)),
{
    reveal_strlit(".chunk");
    let name = chunk_name(idx);
    let digits = zero_padded(idx as nat, 8);
    lemma_padded_numeral_reads_back(idx as nat, 8);
    assert(name.take(name.len() - 6) =~= digits);
    if digits.len() > 8 {
        if idx > 0 {
            lemma_decimal_has_no_leading_zero(idx as nat);
        }
    }
}

proof fn lemma_last_component(dir: Seq<char>, name: Seq<char>)
    requires
        !name.contains('/'),
    ensures
        last_component_start(dir.push('/') + name) == dir.len() + 1,
    decreases name.len(),
{
    let path = dir.push('/') + name;
    if name.len() > 0 {
        assert(name.contains(name.last()));
        assert(path.drop_last() =~= dir.push('/') + name.drop_last());
        assert forall|i: int| 0 <= i < name.drop_last().len() implies name.drop_last()[i]
            != '/' by {
            assert(name.contains(name[i]));
        }
        lemma_last_component(dir, name.drop_last());
    } else {
        assert(path =~= dir.push('/'));
    }
}

/// The directory that holds an entry is the one that it stands in.
pub proof fn law_parent_is_the_directory(dir: Seq<char>, name: Seq<char>)
    requires
        is_name(name),
        name != "."@,
        dir.len() > 0,
        dir.last() != '/',
        dir.len() > 1 && dir.last() == '.' ==> dir[dir.len() - 2] != '/',
    ensures
        parent(dir + "/"@ + name) == Some(dir),
{
    reveal_strlit("/");
    reveal_strlit(".");
    let path = dir.push('/') + name;
    assert(dir + "/"@ + name =~= path);
    assert(name.contains(name.last()));
    if name.len() == 1 && name.last() == '.' {
        assert(name =~= "."@);
    }
    if name.len() > 1 {
        assert(name.contains(name[name.len() - 2]));
        assert(path[path.len() - 2] == name[name.len() - 2]);
    }
    assert(path.last() == name.last());
    assert(trimmed(path) == path);
    assert(path.len() > 1);
    assert(seq!['/'].len() == 1);
    lemma_last_component(dir, name);
    assert(path.take(dir.len() as int + 1) =~= dir.push('/'));
    assert(dir.push('/').drop_last() =~= dir);
    assert(trimmed(dir) == dir);
    assert(trimmed(dir.push('/')) == dir);
}

/// What stands directly under the root is held by the root, and the root by nothing.
pub proof fn law_root_is_the_last_parent(name: Seq<char>)
    requires
        is_name(name),
        name != "."@,
    ensures
        parent("/"@ + name) == Some("/"@),
        parent("/"@) is None,
{
    reveal_strlit("/");
    reveal_strlit(".");
    let path = Seq::<char>::empty().push('/') + name;
    assert("/"@ + name =~= path);
    assert("/"@ =~= seq!['/']);
    assert(name.contains(name.last()));
    if name.len() == 1 && name.last() == '.' {
        assert(name =~= "."@);
    }
    if name.len() > 1 {
        assert(name.contains(name[name.len() - 2]));
        assert(path[path.len() - 2] == name[name.len() - 2]);
    }
    assert(path.last() == name.last());
    assert(trimmed(path) == path);
    assert(path.len() > 1);
    assert(seq!['/'].len() == 1);
    lemma_last_component(Seq::empty(), name);
    assert(path.take(1) =~= seq!['/']);
    assert(trimmed(seq!['/']) == seq!['/']);
}

/// Slashes, and dots that stand for the directory itself, at the end of a path make no difference
/// to what holds it; nor do more slashes than one before its last component.
pub proof fn law_parent_passes_over_slashes(path: Seq<char>, dir: Seq<char>, name: Seq<char>)
    requires
        path.len() > 0,
        is_name(name),
        name != "."@,
        dir.len() > 0,
    ensures
        parent(path + "/"@) == parent(path),
        path.last() != '/' ==> parent(path + "/."@) == parent(path),
        parent(dir + "//"@ + name) == parent(dir + "/"@ + name),
{
    reveal_strlit("/");
    reveal_strlit("//");
    reveal_strlit(".");
    reveal_strlit("/.");
    assert(path + "/"@ =~= path.push('/'));
    assert(path.push('/').drop_last() =~= path);
    if path.last() != '/' {
        let dotted = path.push('/').push('.');
        assert(path + "/."@ =~= dotted);
        assert(dotted.drop_last() =~= path.push('/'));
    }
    let once = dir.push('/') + name;
    let twice = dir.push('/').push('/') + name;
    assert(dir + "/"@ + name =~= once);
    assert(dir + "//"@ + name =~= twice);
    lemma_trimmed_entry(dir, name);
    lemma_trimmed_entry(dir.push('/'), name);
    lemma_last_component(dir, name);
    lemma_last_component(dir.push('/'), name);
    assert(once.take(dir.len() as int + 1) =~= dir.push('/'));
    assert(twice.take(dir.len() as int + 2) =~= dir.push('/').push('/'));
    assert(dir.push('/').push('/').drop_last() =~= dir.push('/'));
}

proof fn lemma_trimmed_entry(dir: Seq<char>, name: Seq<char>)
    requires
        is_name(name),
        name != "."@,
    ensures
        trimmed(dir.push('/') + name) == dir.push('/') + name,
        dir.push('/') + name != seq!['/'],
{
    reveal_strlit(".");
    let path = dir.push('/') + name;
    assert(name.contains(name.last()));
    if name.len() == 1 && name.last() == '.' {
        assert(name =~= "."@);
    }
    if name.len() > 1 {
        assert(name.contains(name[name.len() - 2]));
        assert(path[path.len() - 2] == name[name.len() - 2]);
    }
    assert(path.last() == name.last());
    assert(path.len() > 1);
    assert(seq!['/'].len() == 1);
}

/// A name by itself is held by the empty path.
pub proof fn law_name_is_held_by_the_empty_path(name: Seq<char>)
    requires
        is_name(name),
    ensures
        parent(name) == Some(""@),
{
    reveal_strlit("");
    assert(name.contains(name.last()));
    assert(name.contains(name[0]));
    if name.len() > 1 {
        assert(name.contains(name[name.len() - 2]));
    }
    assert(trimmed(name) == name);
    assert(seq!['/'][0] == '/');
    lemma_no_slash(name);
    assert(name.take(0) =~= ""@);
}

proof fn lemma_no_slash(name: Seq<char>)
    requires
        !name.contains('/'),
    ensures
        last_component_start(name) == 0,
    decreases name.len(),
{
    if name.len() > 0 {
        assert(name.contains(name.last()));
        assert forall|i: int| 0 <= i < name.drop_last().len() implies name.drop_last()[i]
            != '/' by {
            assert(name.contains(name[i]));
        }
        lemma_no_slash(name.drop_last());
    }
}

/// A path that the settings give, seen from the working directory.
pub open spec fn seen_from(cwd: Seq<char>, path: Seq<char>) -> Seq<char> {
    if path.len() > 0 && path[0] == '/' {
        path
    } else {
        entry(cwd, path)
    }
}

/// Each path of the settings is taken from its own variable, as it stands if it is absolute and
/// from the working directory if it is not, and has its own default; the chunk limit is the number
/// in its variable, or ten mebibytes where there is none.
pub proof fn law_settings_are_taken_as_given(env: Environment, cwd: Seq<char>)
    ensures
        configured(env, Some(cwd)) matches Ok(config) && {
            &&& config.data_dir == seen_from(
                cwd,
                match opt_text(env.data_dir) {
                    Some(path) => path,
                    None => "./data"@,
                },
            )
            &&& config.db_path == seen_from(
                cwd,
                match opt_text(env.db_path) {
                    Some(path) => path,
                    None => "./data/app.db"@,
                },
            )
            &&& config.web_dir == seen_from(
                cwd,
                match opt_text(env.web_dir) {
                    Some(path) => path,
                    None => "./web"@,
                },
            )
            &&& config.max_chunk_bytes == match opt_text(env.max_chunk_bytes) {
                Some(text) => match number_in(text) {
                    Some(n) => n as int,
                    None => 10_485_760,
                },
                None => 10_485_760,
            }
        },
{
    reveal_strlit("./data");
    reveal_strlit("./data/app.db");
    reveal_strlit("./web");
    let data_dir = match opt_text(env.data_dir) {
        Some(path) => path,
        None => "./data"@,
    };
    let db_path = match opt_text(env.db_path) {
        Some(path) => path,
        None => "./data/app.db"@,
    };
    let web_dir = match opt_text(env.web_dir) {
        Some(path) => path,
        None => "./web"@,
    };
    if !absolute(data_dir) {
        lemma_entry(cwd, data_dir);
    }
    if !absolute(db_path) {
        lemma_entry(cwd, db_path);
    }
    if !absolute(web_dir) {
        lemma_entry(cwd, web_dir);
    }
}

/// The settings do not need the working directory where all three paths are given and absolute, and
/// cannot be read without it otherwise.
pub proof fn law_settings_without_a_working_directory(env: Environment, cwd: Seq<char>)
    ensures
        ({
            let given = |path: Option<String>| path matches Some(p) && absolute(p@);
            if given(env.data_dir) && given(env.db_path) && given(env.web_dir) {
                configured(env, None) == configured(env, Some(cwd))
            } else {
                configured(env, None) == Err::<ConfigView, Seq<char>>(
                    "resolving current working directory"@,
                )
            }
        }),
{
    reveal_strlit("./data");
    reveal_strlit("./data/app.db");
    reveal_strlit("./web");
}

/// A number in decimal is read as that number, with a plus sign before it or without, and with
/// zeros before its digits or without; one that is too large is not read.
pub proof fn law_limit_in_decimal_is_read(n: nat, width: nat)
    ensures
        n <= usize::MAX ==> number_in(zero_padded(n, width)) == Some(n as usize) && number_in(
            "+"@ + zero_padded(n, width),
        ) == Some(n as usize),
        n > usize::MAX ==> number_in(zero_padded(n, width)) is None && number_in(
            "+"@ + zero_padded(n, width),
        ) is None,
        number_in(""@) is None,
        number_in("+"@) is None,
{
    reveal_strlit("");
    reveal_strlit("+");
    lemma_padded_numeral_reads_back(n, width);
    let digits = zero_padded(n, width);
    assert('0' <= digits[0] <= '9');
    assert(("+"@ + digits).skip(1) =~= digits);
    assert("+"@.skip(1) =~= Seq::empty());
}

/// What is written in decimal is the number: its digits read from the left, each ten times the
/// next. Zeros before them fill it up to the width and no further.
pub proof fn law_decimal_is_the_number(n: nat, width: nat)
    ensures
        is_numeral(zero_padded(n, width)),
        numeral_value(zero_padded(n, width)) == n,
        zero_padded(n, width).len() >= width,
        zero_padded(n, width).len() > width && n > 0 ==> zero_padded(n, width)[0] != '0',
{
    lemma_padded_numeral_reads_back(n, width);
    if n > 0 {
        lemma_decimal_has_no_leading_zero(n);
    }
}

/// A text with anything but decimal digits, a plus sign before them aside, is read as no number.
pub proof fn law_other_text_is_no_limit(text: Seq<char>, at: int)
    requires
        0 <= at < text.len(),
        !('0' <= text[at] <= '9'),
        at > 0 || text[0] != '+',
    ensures
        number_in(text) is None,
{
    if text[0] == '+' {
        assert(text.skip(1)[at - 1] == text[at]);
    }
}

} // verus!
