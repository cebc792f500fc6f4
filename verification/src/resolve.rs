//! Which configured compiler and linker arguments are paths: the caller anchors those at
//! the config file's directory. Environment references are expanded first.
use vstd::prelude::*;

use crate::env::{env_view, expand, expand_env_vars_in_str, EnvVar, EnvVarV};
use crate::ir::strs;
use crate::text::{chars_of, eq_lit, push_chars, strip_prefix, strip_prefix_lit, string_of};

verus! {

/// One argument after expansion: plain text, or a path (behind a flag prefix such as
/// `-I`, possibly empty) that is still to be made absolute.
pub enum ArgPiece {
    Text(String),
    Path { prefix: String, value: String },
}

pub enum ArgPieceV {
    Text(Seq<char>),
    Path { prefix: Seq<char>, value: Seq<char> },
}

pub open spec fn piece_view(p: ArgPiece) -> ArgPieceV {
    match p {
        ArgPiece::Text(t) => ArgPieceV::Text(t@),
        ArgPiece::Path { prefix, value } => ArgPieceV::Path { prefix: prefix@, value: value@ },
    }
}

pub open spec fn pieces_view(v: Seq<ArgPiece>) -> Seq<ArgPieceV> {
    v.map_values(|p: ArgPiece| piece_view(p))
}

/// A path argument: expanded for `input.clang_args`.
pub open spec fn path_piece(
    prefix: Seq<char>,
    value: Seq<char>,
    env: Seq<EnvVarV>,
) -> Result<ArgPieceV, Seq<char>> {
    match expand(value, "input.clang_args"@, env) {
        Ok(v) => Ok(ArgPieceV::Path { prefix, value: v }),
        Err(e) => Err(e),
    }
}

/// The pieces of `args` from position `i`: `-I` or `-isystem` followed by a path, `-I<path>`,
/// `-isystem<path>`, anything else as expanded text; the first failed expansion stops.
pub open spec fn clang_pieces(args: Seq<Seq<char>>, i: int, env: Seq<EnvVarV>) -> Result<
    Seq<ArgPieceV>,
    Seq<char>,
>
    decreases args.len() - i,
{
    if i < 0 || i >= args.len() {
        Ok(seq![])
    } else {
        let a = args[i];
        if a == "-I"@ || a == "-isystem"@ {
            if i + 1 < args.len() {
                match path_piece(seq![], args[i + 1], env) {
                    Err(e) => Err(e),
                    Ok(p) => match clang_pieces(args, i + 2, env) {
                        Err(e) => Err(e),
                        Ok(rest) => Ok(seq![ArgPieceV::Text(a), p] + rest),
                    },
                }
            } else {
                Ok(seq![ArgPieceV::Text(a)])
            }
        } else {
            let head = match strip_prefix(a, "-I"@) {
                Some(v) => path_piece("-I"@, v, env),
                None => match strip_prefix(a, "-isystem"@) {
                    Some(v) => path_piece("-isystem"@, v, env),
                    None => match expand(a, "input.clang_args"@, env) {
                        Ok(t) => Ok(ArgPieceV::Text(t)),
                        Err(e) => Err(e),
                    },
                },
            };
            match head {
                Err(e) => Err(e),
                Ok(p) => match clang_pieces(args, i + 1, env) {
                    Err(e) => Err(e),
                    Ok(rest) => Ok(seq![p] + rest),
                },
            }
        }
    }
}

/// A linker path: expanded for `input.ldflags`, then once more for `input.clang_args`.
pub open spec fn link_path_piece(
    prefix: Seq<char>,
    value: Seq<char>,
    env: Seq<EnvVarV>,
) -> Result<ArgPieceV, Seq<char>> {
    match expand(value, "input.ldflags"@, env) {
        Ok(v) => path_piece(prefix, v, env),
        Err(e) => Err(e),
    }
}

/// The pieces of linker flags from position `i`: `-L` followed by a path, `-L<path>`,
/// anything else as expanded text; the first failed expansion stops.
pub open spec fn link_pieces(args: Seq<Seq<char>>, i: int, env: Seq<EnvVarV>) -> Result<
    Seq<ArgPieceV>,
    Seq<char>,
>
    decreases args.len() - i,
{
    if i < 0 || i >= args.len() {
        Ok(seq![])
    } else {
        let a = args[i];
        if a == "-L"@ {
            if i + 1 < args.len() {
                match link_path_piece(seq![], args[i + 1], env) {
                    Err(e) => Err(e),
                    Ok(p) => match link_pieces(args, i + 2, env) {
                        Err(e) => Err(e),
                        Ok(rest) => Ok(seq![ArgPieceV::Text(a), p] + rest),
                    },
                }
            } else {
                Ok(seq![ArgPieceV::Text(a)])
            }
        } else {
            let head = match strip_prefix(a, "-L"@) {
                Some(v) => link_path_piece("-L"@, v, env),
                None => match expand(a, "input.ldflags"@, env) {
                    Ok(t) => Ok(ArgPieceV::Text(t)),
                    Err(e) => Err(e),
                },
            };
            match head {
                Err(e) => Err(e),
                Ok(p) => match link_pieces(args, i + 1, env) {
                    Err(e) => Err(e),
                    Ok(rest) => Ok(seq![p] + rest),
                },
            }
        }
    }
}

pub open spec fn pieces_result(r: Result<Vec<ArgPiece>, String>) -> Result<Seq<ArgPieceV>, Seq<char>> {
    match r {
        Ok(v) => Ok(pieces_view(v@)),
        Err(e) => Err(e@),
    }
}

fn path_piece_exec(prefix: &str, value: &[char], env: &Vec<EnvVar>) -> (r: Result<ArgPiece, String>)
    ensures
        match r {
            Ok(p) => path_piece(prefix@, value@, env_view(env@)) == Ok::<ArgPieceV, Seq<char>>(piece_view(p)),
            Err(e) => path_piece(prefix@, value@, env_view(env@)) == Err::<ArgPieceV, Seq<char>>(e@),
        },
{
    let s = string_of(value);
    match expand_env_vars_in_str(s.as_str(), "input.clang_args", env) {
        Ok(v) => Ok(ArgPiece::Path { prefix: String::from_str(prefix), value: v }),
        Err(e) => Err(e),
    }
}

fn link_path_piece_exec(prefix: &str, value: &[char], env: &Vec<EnvVar>) -> (r: Result<ArgPiece, String>)
    ensures
        match r {
            Ok(p) => link_path_piece(prefix@, value@, env_view(env@)) == Ok::<ArgPieceV, Seq<char>>(piece_view(p)),
            Err(e) => link_path_piece(prefix@, value@, env_view(env@)) == Err::<ArgPieceV, Seq<char>>(e@),
        },
{
    let s = string_of(value);
    match expand_env_vars_in_str(s.as_str(), "input.ldflags", env) {
        Ok(v) => path_piece_exec(prefix, chars_of(v.as_str()).as_slice(), env),
        Err(e) => Err(e),
    }
}

fn push_piece(out: &mut Vec<ArgPiece>, p: ArgPiece)
    ensures
        pieces_view(final(out)@) == pieces_view(old(out)@).push(piece_view(p)),
{
    let ghost before = pieces_view(out@);
    let ghost pv = piece_view(p);
    out.push(p);
    assert(pieces_view(out@) =~= before.push(pv));
}

/// The configured compiler arguments split into text and paths.
pub fn plan_clang_args(args: &Vec<String>, env: &Vec<EnvVar>) -> (r: Result<Vec<ArgPiece>, String>)
    ensures
        pieces_result(r) == clang_pieces(strs(args@), 0, env_view(env@)),
{
    let ghost av = strs(args@);
    let ghost ev = env_view(env@);
    let mut out: Vec<ArgPiece> = Vec::new();
    let mut i: usize = 0;
    assert(pieces_view(out@) =~= Seq::<ArgPieceV>::empty());
    while i < args.len()
        invariant
            i <= args.len(),
            av == strs(args@),
            ev == env_view(env@),
            clang_pieces(av, 0, ev) == match clang_pieces(av, i as int, ev) {
                Ok(rest) => Ok::<Seq<ArgPieceV>, Seq<char>>(pieces_view(out@) + rest),
                Err(e) => Err(e),
            },
        decreases args.len() - i,
    {
        let a = chars_of(args[i].as_str());
        assert(av[i as int] == a@);
        let ghost before = pieces_view(out@);
        let ghost old_i = i as int;
        if eq_lit(a.as_slice(), "-I") || eq_lit(a.as_slice(), "-isystem") {
            push_piece(&mut out, ArgPiece::Text(args[i].clone()));
            if i + 1 < args.len() {
                let next = chars_of(args[i + 1].as_str());
                assert(av[i + 1] == next@);
                match path_piece_exec("", next.as_slice(), env) {
                    Err(e) => {
                        proof {
                            reveal_strlit("");
                            assert(""@ =~= Seq::<char>::empty());
                        }
                        return Err(e);
                    },
                    Ok(p) => {
                        proof {
                            reveal_strlit("");
                            assert(""@ =~= Seq::<char>::empty());
                        }
                        push_piece(&mut out, p);
                    },
                }
                i = i + 2;
                proof {
                    match clang_pieces(av, i as int, ev) {
                        Ok(rest) => {
                            assert(pieces_view(out@) + rest =~= before + (seq![
                                ArgPieceV::Text(av[old_i]),
                                pieces_view(out@).last(),
                            ] + rest));
                        },
                        Err(_) => {},
                    }
                }
            } else {
                i = args.len();
                proof {
                    assert(pieces_view(out@) + Seq::<ArgPieceV>::empty() =~= before + seq![
                        ArgPieceV::Text(av[old_i]),
                    ]);
                }
            }
        } else {
            let piece = match strip_prefix_lit(a.as_slice(), "-I") {
                Some(v) => path_piece_exec("-I", v.as_slice(), env),
                None => match strip_prefix_lit(a.as_slice(), "-isystem") {
                    Some(v) => path_piece_exec("-isystem", v.as_slice(), env),
                    None => match expand_env_vars_in_str(args[i].as_str(), "input.clang_args", env) {
                        Ok(t) => Ok(ArgPiece::Text(t)),
                        Err(e) => Err(e),
                    },
                },
            };
            match piece {
                Err(e) => return Err(e),
                Ok(p) => push_piece(&mut out, p),
            }
            i = i + 1;
            proof {
                match clang_pieces(av, i as int, ev) {
                    Ok(rest) => {
                        assert(pieces_view(out@) + rest =~= before + (seq![pieces_view(out@).last()]
                            + rest));
                    },
                    Err(_) => {},
                }
            }
        }
    }
    assert(pieces_view(out@) + Seq::<ArgPieceV>::empty() =~= pieces_view(out@));
    Ok(out)
}

/// The configured linker flags split into text and paths.
pub fn plan_ldflags(args: &Vec<String>, env: &Vec<EnvVar>) -> (r: Result<Vec<ArgPiece>, String>)
    ensures
        pieces_result(r) == link_pieces(strs(args@), 0, env_view(env@)),
{
    let ghost av = strs(args@);
    let ghost ev = env_view(env@);
    let mut out: Vec<ArgPiece> = Vec::new();
    let mut i: usize = 0;
    assert(pieces_view(out@) =~= Seq::<ArgPieceV>::empty());
    while i < args.len()
        invariant
            i <= args.len(),
            av == strs(args@),
            ev == env_view(env@),
            link_pieces(av, 0, ev) == match link_pieces(av, i as int, ev) {
                Ok(rest) => Ok::<Seq<ArgPieceV>, Seq<char>>(pieces_view(out@) + rest),
                Err(e) => Err(e),
            },
        decreases args.len() - i,
    {
        let a = chars_of(args[i].as_str());
        assert(av[i as int] == a@);
        let ghost before = pieces_view(out@);
        let ghost old_i = i as int;
        if eq_lit(a.as_slice(), "-L") {
            push_piece(&mut out, ArgPiece::Text(args[i].clone()));
            if i + 1 < args.len() {
                let next = chars_of(args[i + 1].as_str());
                assert(av[i + 1] == next@);
                match link_path_piece_exec("", next.as_slice(), env) {
                    Err(e) => {
                        proof {
                            reveal_strlit("");
                            assert(""@ =~= Seq::<char>::empty());
                        }
                        return Err(e);
                    },
                    Ok(p) => {
                        proof {
                            reveal_strlit("");
                            assert(""@ =~= Seq::<char>::empty());
                        }
                        push_piece(&mut out, p);
                    },
                }
                i = i + 2;
                proof {
                    match link_pieces(av, i as int, ev) {
                        Ok(rest) => {
                            assert(pieces_view(out@) + rest =~= before + (seq![
                                ArgPieceV::Text(av[old_i]),
                                pieces_view(out@).last(),
                            ] + rest));
                        },
                        Err(_) => {},
                    }
                }
            } else {
                i = args.len();
                proof {
                    assert(pieces_view(out@) + Seq::<ArgPieceV>::empty() =~= before + seq![
                        ArgPieceV::Text(av[old_i]),
                    ]);
                }
            }
        } else {
            let piece = match strip_prefix_lit(a.as_slice(), "-L") {
                Some(v) => link_path_piece_exec("-L", v.as_slice(), env),
                None => match expand_env_vars_in_str(args[i].as_str(), "input.ldflags", env) {
                    Ok(t) => Ok(ArgPiece::Text(t)),
                    Err(e) => Err(e),
                },
            };
            match piece {
                Err(e) => return Err(e),
                Ok(p) => push_piece(&mut out, p),
            }
            i = i + 1;
            proof {
                match link_pieces(av, i as int, ev) {
                    Ok(rest) => {
                        assert(pieces_view(out@) + rest =~= before + (seq![pieces_view(out@).last()]
                            + rest));
                    },
                    Err(_) => {},
                }
            }
        }
    }
    assert(pieces_view(out@) + Seq::<ArgPieceV>::empty() =~= pieces_view(out@));
    Ok(out)
}

} // verus!
