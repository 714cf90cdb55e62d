//! A batch of commands and its two textual surface forms: one line of
//! `;`-separated commands, or a multi-line document with one command per
//! line where blank lines and `#`-prefixed lines are skipped.

use vstd::prelude::*;

use crate::command::{parse_command, Command, CommandView};
use crate::error::{Error, ErrorView};
use crate::text::{doc_lines, split_char, split_doc_lines, split_str};

verus! {

use vstd::string::StrSliceExecFns;

/// An ordered batch of commands; execution order is batch order.
#[derive(Debug)]
pub struct Batch {
    pub commands: Vec<Command>,
}

/// The mathematical values of a sequence of commands.
pub open spec fn views_of(cs: Seq<Command>) -> Seq<CommandView> {
    cs.map_values(|c: Command| c@)
}

impl View for Batch {
    type V = Seq<CommandView>;

    open spec fn view(&self) -> Seq<CommandView> {
        views_of(self.commands@)
    }
}

impl PartialEq for Batch {
    fn eq(&self, other: &Batch) -> (r: bool) {
        if self.commands.len() != other.commands.len() {
            assert(self@.len() != other@.len());
            return false;
        }
        let n = self.commands.len();
        let mut i: usize = 0;
        while i < n
            invariant
                i <= n,
                n == self.commands@.len() == other.commands@.len(),
                forall|j: int| 0 <= j < i ==> self@[j] == other@[j],
            decreases n - i,
        {
            if self.commands[i] != other.commands[i] {
                assert(self@[i as int] != other@[i as int]);
                return false;
            }
            i = i + 1;
        }
        assert(self@ =~= other@);
        true
    }
}

impl vstd::std_specs::cmp::PartialEqSpecImpl for Batch {
    open spec fn obeys_eq_spec() -> bool {
        true
    }

    open spec fn eq_spec(&self, other: &Batch) -> bool {
        self@ == other@
    }
}

/// What parsing a sequence of command texts yields: each piece parses to
/// one command, in order, and the first malformed piece aborts the whole
/// parse with its syntax error.
pub open spec fn parse_pieces(ps: Seq<Seq<char>>) -> Result<Seq<CommandView>, ErrorView>
    decreases ps.len(),
{
    if ps.len() == 0 {
        Ok(Seq::empty())
    } else {
        match parse_command(ps[0]) {
            Err(e) => Err(ErrorView::Syntax(e)),
            Ok(c) => match parse_pieces(ps.drop_first()) {
                Ok(rest) => Ok(seq![c] + rest),
                Err(e) => Err(e),
            },
        }
    }
}

/// What parsing a one-line batch yields: the text is cut at every `;`
/// and each piece is parsed as one command.
pub open spec fn parse_batch(s: Seq<char>) -> Result<Seq<CommandView>, ErrorView> {
    parse_pieces(split_char(s, ';'))
}

/// Parsing a prefix and then the remainder is parsing the whole: the
/// commands concatenate when both halves parse, and the first error of
/// the earliest failing half surfaces.
proof fn lemma_parse_pieces_decompose(ps: Seq<Seq<char>>, i: int)
    requires
        0 <= i <= ps.len(),
    ensures
        parse_pieces(ps) == (match parse_pieces(ps.take(i)) {
            Ok(cs) => match parse_pieces(ps.skip(i)) {
                Ok(ds) => Ok::<Seq<CommandView>, ErrorView>(cs + ds),
                Err(e) => Err::<Seq<CommandView>, ErrorView>(e),
            },
            Err(e) => Err::<Seq<CommandView>, ErrorView>(e),
        }),
    decreases i,
{
    if i == 0 {
        assert(ps.take(0) =~= Seq::<Seq<char>>::empty());
        assert(ps.skip(0) =~= ps);
        match parse_pieces(ps) {
            Ok(ds) => {
                assert(Seq::<CommandView>::empty() + ds =~= ds);
            },
            Err(_) => {},
        }
    } else {
        lemma_parse_pieces_decompose(ps.drop_first(), i - 1);
        assert(ps.take(i)[0] == ps[0]);
        assert(ps.take(i).drop_first() =~= ps.drop_first().take(i - 1));
        assert(ps.skip(i) =~= ps.drop_first().skip(i - 1));
        match parse_command(ps[0]) {
            Err(_) => {},
            Ok(c) => {
                match parse_pieces(ps.drop_first().take(i - 1)) {
                    Ok(cs1) => {
                        match parse_pieces(ps.drop_first().skip(i - 1)) {
                            Ok(ds) => {
                                assert(seq![c] + (cs1 + ds) =~= (seq![c] + cs1) + ds);
                            },
                            Err(_) => {},
                        }
                    },
                    Err(_) => {},
                }
            },
        }
    }
}

/// When the first `i` pieces parsed cleanly and piece `i` parses too,
/// the parsed prefix grows by that command.
proof fn lemma_parse_pieces_snoc(ps: Seq<Seq<char>>, i: int, cs: Seq<CommandView>, c: CommandView)
    requires
        0 <= i < ps.len(),
        parse_pieces(ps.take(i)) == Ok::<Seq<CommandView>, ErrorView>(cs),
        parse_command(ps[i]) == Ok::<CommandView, crate::command::SyntaxErrorView>(c),
    ensures
        parse_pieces(ps.take(i + 1)) == Ok::<Seq<CommandView>, ErrorView>(cs.push(c)),
{
    let front = ps.take(i + 1);
    lemma_parse_pieces_decompose(front, i);
    assert(front.take(i) =~= ps.take(i));
    let tail = front.skip(i);
    assert(tail.len() == 1);
    assert(tail[0] == ps[i]);
    assert(tail.drop_first() =~= Seq::<Seq<char>>::empty());
    assert(parse_pieces(tail.drop_first()) == Ok::<Seq<CommandView>, ErrorView>(Seq::empty()));
    assert(parse_pieces(tail) == Ok::<Seq<CommandView>, ErrorView>(seq![c] + Seq::empty()));
    assert(cs + (seq![c] + Seq::<CommandView>::empty()) =~= cs.push(c));
}

/// When the first `i` pieces parsed cleanly and piece `i` is malformed,
/// the whole parse fails with that piece's syntax error.
proof fn lemma_parse_pieces_err(
    ps: Seq<Seq<char>>,
    i: int,
    cs: Seq<CommandView>,
    e: crate::command::SyntaxErrorView,
)
    requires
        0 <= i < ps.len(),
        parse_pieces(ps.take(i)) == Ok::<Seq<CommandView>, ErrorView>(cs),
        parse_command(ps[i]) == Err::<CommandView, crate::command::SyntaxErrorView>(e),
    ensures
        parse_pieces(ps) == Err::<Seq<CommandView>, ErrorView>(ErrorView::Syntax(e)),
{
    lemma_parse_pieces_decompose(ps, i);
    assert(ps.skip(i)[0] == ps[i]);
    assert(ps.skip(i).len() > 0);
}

/// A line the multi-line form parses: non-empty and not a `#` comment.
pub open spec fn keep_line(l: Seq<char>) -> bool {
    l.len() > 0 && l[0] != '#'
}

/// What parsing a multi-line document's lines yields: blank lines and
/// `#`-prefixed lines are skipped silently, every other line is one
/// command, and the first malformed line aborts the whole parse.
pub open spec fn parse_lines(ls: Seq<Seq<char>>) -> Result<Seq<CommandView>, ErrorView>
    decreases ls.len(),
{
    if ls.len() == 0 {
        Ok(Seq::empty())
    } else if !keep_line(ls[0]) {
        parse_lines(ls.drop_first())
    } else {
        match parse_command(ls[0]) {
            Err(e) => Err(ErrorView::Syntax(e)),
            Ok(c) => match parse_lines(ls.drop_first()) {
                Ok(rest) => Ok(seq![c] + rest),
                Err(e) => Err(e),
            },
        }
    }
}

/// What parsing a multi-line document yields.
pub open spec fn parse_document(s: Seq<char>) -> Result<Seq<CommandView>, ErrorView> {
    parse_lines(doc_lines(s))
}

/// Parsing a prefix of the lines and then the remainder is parsing the
/// whole, as for `parse_pieces`.
proof fn lemma_parse_lines_decompose(ls: Seq<Seq<char>>, i: int)
    requires
        0 <= i <= ls.len(),
    ensures
        parse_lines(ls) == (match parse_lines(ls.take(i)) {
            Ok(cs) => match parse_lines(ls.skip(i)) {
                Ok(ds) => Ok::<Seq<CommandView>, ErrorView>(cs + ds),
                Err(e) => Err::<Seq<CommandView>, ErrorView>(e),
            },
            Err(e) => Err::<Seq<CommandView>, ErrorView>(e),
        }),
    decreases i,
{
    if i == 0 {
        assert(ls.take(0) =~= Seq::<Seq<char>>::empty());
        assert(ls.skip(0) =~= ls);
        match parse_lines(ls) {
            Ok(ds) => {
                assert(Seq::<CommandView>::empty() + ds =~= ds);
            },
            Err(_) => {},
        }
    } else {
        lemma_parse_lines_decompose(ls.drop_first(), i - 1);
        assert(ls.take(i)[0] == ls[0]);
        assert(ls.take(i).drop_first() =~= ls.drop_first().take(i - 1));
        assert(ls.skip(i) =~= ls.drop_first().skip(i - 1));
        if keep_line(ls[0]) {
            match parse_command(ls[0]) {
                Err(_) => {},
                Ok(c) => {
                    match parse_lines(ls.drop_first().take(i - 1)) {
                        Ok(cs1) => {
                            match parse_lines(ls.drop_first().skip(i - 1)) {
                                Ok(ds) => {
                                    assert(seq![c] + (cs1 + ds) =~= (seq![c] + cs1) + ds);
                                },
                                Err(_) => {},
                            }
                        },
                        Err(_) => {},
                    }
                },
            }
        }
    }
}

/// A skipped line leaves the parsed prefix as it stands.
proof fn lemma_parse_lines_skip(ls: Seq<Seq<char>>, i: int, cs: Seq<CommandView>)
    requires
        0 <= i < ls.len(),
        parse_lines(ls.take(i)) == Ok::<Seq<CommandView>, ErrorView>(cs),
        !keep_line(ls[i]),
    ensures
        parse_lines(ls.take(i + 1)) == Ok::<Seq<CommandView>, ErrorView>(cs),
{
    let front = ls.take(i + 1);
    lemma_parse_lines_decompose(front, i);
    assert(front.take(i) =~= ls.take(i));
    let tail = front.skip(i);
    assert(tail.len() == 1);
    assert(tail[0] == ls[i]);
    assert(tail.drop_first() =~= Seq::<Seq<char>>::empty());
    assert(parse_lines(tail.drop_first()) == Ok::<Seq<CommandView>, ErrorView>(Seq::empty()));
    assert(parse_lines(tail) == Ok::<Seq<CommandView>, ErrorView>(Seq::empty()));
    assert(cs + Seq::<CommandView>::empty() =~= cs);
}

/// A kept line that parses grows the parsed prefix by its command.
proof fn lemma_parse_lines_snoc(ls: Seq<Seq<char>>, i: int, cs: Seq<CommandView>, c: CommandView)
    requires
        0 <= i < ls.len(),
        parse_lines(ls.take(i)) == Ok::<Seq<CommandView>, ErrorView>(cs),
        keep_line(ls[i]),
        parse_command(ls[i]) == Ok::<CommandView, crate::command::SyntaxErrorView>(c),
    ensures
        parse_lines(ls.take(i + 1)) == Ok::<Seq<CommandView>, ErrorView>(cs.push(c)),
{
    let front = ls.take(i + 1);
    lemma_parse_lines_decompose(front, i);
    assert(front.take(i) =~= ls.take(i));
    let tail = front.skip(i);
    assert(tail.len() == 1);
    assert(tail[0] == ls[i]);
    assert(tail.drop_first() =~= Seq::<Seq<char>>::empty());
    assert(parse_lines(tail.drop_first()) == Ok::<Seq<CommandView>, ErrorView>(Seq::empty()));
    assert(parse_lines(tail) == Ok::<Seq<CommandView>, ErrorView>(seq![c] + Seq::empty()));
    assert(cs + (seq![c] + Seq::<CommandView>::empty()) =~= cs.push(c));
}

/// A kept line that is malformed aborts the whole parse with its error.
proof fn lemma_parse_lines_err(
    ls: Seq<Seq<char>>,
    i: int,
    cs: Seq<CommandView>,
    e: crate::command::SyntaxErrorView,
)
    requires
        0 <= i < ls.len(),
        parse_lines(ls.take(i)) == Ok::<Seq<CommandView>, ErrorView>(cs),
        keep_line(ls[i]),
        parse_command(ls[i]) == Err::<CommandView, crate::command::SyntaxErrorView>(e),
    ensures
        parse_lines(ls) == Err::<Seq<CommandView>, ErrorView>(ErrorView::Syntax(e)),
{
    lemma_parse_lines_decompose(ls, i);
    assert(ls.skip(i)[0] == ls[i]);
    assert(ls.skip(i).len() > 0);
}

impl Batch {
    /// Parse a one-line batch of `;`-separated commands.
    pub fn from_str(s: &str) -> (r: Result<Batch, Error>)
        ensures
            match r {
                Ok(b) => parse_batch(s@) == Ok::<Seq<CommandView>, ErrorView>(b@),
                Err(e) => parse_batch(s@) == Err::<Seq<CommandView>, ErrorView>(e@),
            },
    {
        let pieces = split_str(s, ';');
        let ghost ps = split_char(s@, ';');
        let mut commands: Vec<Command> = Vec::new();
        proof {
            assert(ps.take(0) =~= Seq::<Seq<char>>::empty());
            assert(views_of(commands@) =~= Seq::<CommandView>::empty());
        }
        let n = pieces.len();
        let mut i: usize = 0;
        while i < n
            invariant
                i <= n,
                ps == split_char(s@, ';'),
                n == pieces@.len() == ps.len(),
                forall|k: int| 0 <= k < n ==> #[trigger] pieces@[k]@ == ps[k],
                parse_pieces(ps.take(i as int)) == Ok::<Seq<CommandView>, ErrorView>(
                    views_of(commands@),
                ),
            decreases n - i,
        {
            match Command::from_str(pieces[i]) {
                Err(e) => {
                    proof {
                        lemma_parse_pieces_err(ps, i as int, views_of(commands@), e@);
                    }
                    return Err(Error::Syntax(e));
                },
                Ok(c) => {
                    let ghost pre = commands@;
                    proof {
                        lemma_parse_pieces_snoc(ps, i as int, views_of(pre), c@);
                    }
                    commands.push(c);
                    proof {
                        assert(views_of(commands@) =~= views_of(pre).push(commands@.last()@));
                    }
                },
            }
            i = i + 1;
        }
        proof {
            assert(ps.take(n as int) =~= ps);
        }
        Ok(Batch { commands })
    }

    /// Parse a multi-line document: one command per line, blank lines
    /// and lines starting with `#` skipped.
    pub fn from_text(s: &str) -> (r: Result<Batch, Error>)
        ensures
            match r {
                Ok(b) => parse_document(s@) == Ok::<Seq<CommandView>, ErrorView>(b@),
                Err(e) => parse_document(s@) == Err::<Seq<CommandView>, ErrorView>(e@),
            },
    {
        let lines = split_doc_lines(s);
        let ghost ls = doc_lines(s@);
        let n = lines.len();
        let mut commands: Vec<Command> = Vec::new();
        proof {
            assert(ls.take(0) =~= Seq::<Seq<char>>::empty());
            assert(views_of(commands@) =~= Seq::<CommandView>::empty());
        }
        let mut j: usize = 0;
        while j < n
            invariant
                j <= n,
                ls == doc_lines(s@),
                n == lines@.len() == ls.len(),
                forall|k: int| 0 <= k < n ==> #[trigger] lines@[k]@ == ls[k],
                parse_lines(ls.take(j as int)) == Ok::<Seq<CommandView>, ErrorView>(
                    views_of(commands@),
                ),
            decreases n - j,
        {
            let line = lines[j];
            let keep = if line.is_empty() {
                false
            } else {
                line.get_char(0) != '#'
            };
            if keep {
                match Command::from_str(line) {
                    Err(e) => {
                        proof {
                            lemma_parse_lines_err(ls, j as int, views_of(commands@), e@);
                        }
                        return Err(Error::Syntax(e));
                    },
                    Ok(c) => {
                        let ghost pre = commands@;
                        proof {
                            lemma_parse_lines_snoc(ls, j as int, views_of(pre), c@);
                        }
                        commands.push(c);
                        proof {
                            assert(views_of(commands@) =~= views_of(pre).push(
                                commands@.last()@,
                            ));
                        }
                    },
                }
            } else {
                proof {
                    lemma_parse_lines_skip(ls, j as int, views_of(commands@));
                }
            }
            j = j + 1;
        }
        proof {
            assert(ls.take(n as int) =~= ls);
        }
        Ok(Batch { commands })
    }
}

} // verus!
