//! The command line of a compiler run, and what the end of the run means.

use crate::error::DerivationError;
use crate::path::{path_same, same_path};
use crate::solc::Solc;
use crate::text::{duplicate_texts, lemma_texts_push, texts};
use itertools::Itertools;
use vstd::prelude::*;
use vstd::utf8::{decode_utf8, valid_utf8};

verus! {

/// The texts of `parts` in a row, with `sep` between each two neighbours.
pub open spec fn joined(parts: Seq<Seq<char>>, sep: Seq<char>) -> Seq<char>
    decreases parts.len(),
{
    if parts.len() == 0 {
        Seq::<char>::empty()
    } else if parts.len() == 1 {
        parts[0]
    } else {
        joined(parts.drop_last(), sep) + sep + parts.last()
    }
}

/// The text that `String::from_utf8_lossy` reads out of the bytes: their characters,
/// with the replacement character wherever the bytes are not UTF-8.
pub uninterp spec fn utf8_lossy(bytes: Seq<u8>) -> Seq<char>;

/// The arguments that allow paths: none where the list is empty, else the flag and
/// the paths joined by commas.
pub open spec fn allow_args(allow_paths: Seq<Seq<char>>) -> Seq<Seq<char>> {
    if allow_paths.len() == 0 {
        Seq::<Seq<char>>::empty()
    } else {
        seq!["--allow-paths"@, joined(allow_paths, ","@)]
    }
}

/// The arguments that name include paths: the flag and the path, for each path of
/// the list that is not the base path, in the order of the list.
pub open spec fn include_args(include_paths: Seq<Seq<char>>, base: Seq<char>) -> Seq<Seq<char>>
    decreases include_paths.len(),
{
    if include_paths.len() == 0 {
        Seq::<Seq<char>>::empty()
    } else {
        let before = include_args(include_paths.drop_last(), base);
        if path_same(include_paths.last(), base) {
            before
        } else {
            before.push("--include-path"@).push(include_paths.last())
        }
    }
}

/// The arguments that follow from the base path: none without a base path or with a
/// compiler that does not take one; else the include paths, where the compiler takes
/// them, and then the base path.
pub open spec fn base_args(solc: Solc) -> Seq<Seq<char>> {
    match solc.base_path {
        None => Seq::<Seq<char>>::empty(),
        Some(base) => if !solc.supports_base_path_spec() {
            Seq::<Seq<char>>::empty()
        } else {
            (if solc.supports_include_path_spec() {
                include_args(texts(solc.include_paths@), base@)
            } else {
                Seq::<Seq<char>>::empty()
            }) + seq!["--base-path"@, base@]
        },
    }
}

/// The arguments of a compiler run, in their order: the further arguments of the
/// binary, the allow paths, the include paths and the base path, and last the flag
/// for the JSON protocol.
pub open spec fn command_args(solc: Solc) -> Seq<Seq<char>> {
    texts(solc.extra_args@) + allow_args(texts(solc.allow_paths@)) + base_args(solc)
        + seq!["--standard-json"@]
}

/// Calls `Itertools::join` on the texts of the list: the texts in a row, with `sep`
/// between each two neighbours, and the empty text for an empty list.
#[verifier::external_body]
fn join(parts: &Vec<String>, sep: &str) -> (r: String)
    ensures
        r@ == joined(texts(parts@), sep@),
{
    parts.iter().join(sep)
}

/// Calls `String::from_utf8_lossy`: the text of the bytes, which is their decoding
/// where they are UTF-8.
#[verifier::external_body]
fn lossy_text(bytes: &Vec<u8>) -> (r: String)
    ensures
        r@ == utf8_lossy(bytes@),
        valid_utf8(bytes@) ==> r@ == decode_utf8(bytes@),
{
    String::from_utf8_lossy(bytes).into_owned()
}

/// Appends the include arguments for the paths of `include_paths` to `args`.
fn push_include_args(args: &mut Vec<String>, include_paths: &Vec<String>, base: &String)
    ensures
        texts(final(args)@) == texts(old(args)@) + include_args(texts(include_paths@), base@),
{
    let ghost start = texts(args@);
    let mut i: usize = 0;
    assert(texts(include_paths@).take(0) =~= Seq::<Seq<char>>::empty());
    assert(texts(args@) =~= start + include_args(texts(include_paths@).take(0), base@));
    while i < include_paths.len()
        invariant
            i <= include_paths.len(),
            texts(args@) == start + include_args(texts(include_paths@).take(i as int), base@),
        decreases include_paths.len() - i,
    {
        let ghost upto = texts(include_paths@).take(i as int + 1);
        let ghost before = include_args(texts(include_paths@).take(i as int), base@);
        assert(upto.drop_last() =~= texts(include_paths@).take(i as int));
        assert(upto.last() == include_paths@[i as int]@);
        if !same_path(include_paths[i].as_str(), base.as_str()) {
            let flag = "--include-path".to_owned();
            let path = include_paths[i].clone();
            proof {
                lemma_texts_push(args@, flag);
                lemma_texts_push(args@.push(flag), path);
            }
            args.push(flag);
            args.push(path);
            assert(texts(args@) =~= start + before.push("--include-path"@).push(
                include_paths@[i as int]@,
            ));
        }
        i += 1;
    }
    assert(texts(include_paths@).take(include_paths.len() as int) =~= texts(include_paths@));
}

/// The arguments with which the compiler is started to answer a JSON request on its
/// standard input.
pub fn configure_cmd(solc: &Solc) -> (r: Vec<String>)
    ensures
        texts(r@) == command_args(*solc),
{
    let mut args: Vec<String> = duplicate_texts(&solc.extra_args);
    let ghost extra = texts(args@);
    if solc.allow_paths.len() > 0 {
        let flag = "--allow-paths".to_owned();
        let paths = join(&solc.allow_paths, ",");
        proof {
            lemma_texts_push(args@, flag);
            lemma_texts_push(args@.push(flag), paths);
        }
        args.push(flag);
        args.push(paths);
    }
    assert(texts(args@) =~= extra + allow_args(texts(solc.allow_paths@)));
    let ghost allowed = texts(args@);
    match &solc.base_path {
        Some(base) => {
            if solc.supports_base_path() {
                if solc.supports_include_path() {
                    push_include_args(&mut args, &solc.include_paths, base);
                }
                let ghost included = texts(args@);
                let flag = "--base-path".to_owned();
                let path = base.clone();
                proof {
                    lemma_texts_push(args@, flag);
                    lemma_texts_push(args@.push(flag), path);
                }
                args.push(flag);
                args.push(path);
                assert(texts(args@) =~= included + seq!["--base-path"@, base@]);
            }
        },
        None => {},
    }
    assert(texts(args@) =~= allowed + base_args(*solc));
    let ghost based = texts(args@);
    let flag = "--standard-json".to_owned();
    proof {
        lemma_texts_push(args@, flag);
    }
    args.push(flag);
    assert(texts(args@) =~= based + seq!["--standard-json"@]);
    args
}

/// What a finished compiler run gives: its standard output, if it ended well; else
/// the failure, with the text of its standard error.
pub fn compile_output(success: bool, stdout: Vec<u8>, stderr: &Vec<u8>) -> (r: Result<
    Vec<u8>,
    DerivationError,
>)
    ensures
        success ==> r == Ok::<Vec<u8>, DerivationError>(stdout),
        !success ==> (r matches Err(DerivationError::CompilerInvocation(text)) && text@
            == utf8_lossy(stderr@)),
        !success && valid_utf8(stderr@) ==> (r matches Err(
            DerivationError::CompilerInvocation(text),
        ) && text@ == decode_utf8(stderr@)),
{
    if success {
        Ok(stdout)
    } else {
        Err(DerivationError::CompilerInvocation(lossy_text(stderr)))
    }
}

} // verus!
