//! Running a program for a request: the arguments it gets, and what its end
//! means for the request.

use crate::errors::{failure, CommandError, ErrorKind, ErrorModel};
use crate::json::{lemma_trees, trees, Json, JsonModel, JsonNumber, NumberModel};
use crate::result::{success_with, CommandResult};
use crate::text::{decimal, i64_to_string, signed_decimal, trim, trimmed, u64_to_string, views};
use vstd::prelude::*;
use vstd::string::StringExecFns;

verus! {

/// A number as a program gets it: an integer without a decimal point, any
/// other number in its shortest form.
pub open spec fn number_text(n: NumberModel) -> Seq<char> {
    match n {
        NumberModel::Unsigned(u) => decimal(u as nat),
        NumberModel::Negative(i) => signed_decimal(i as int),
        NumberModel::Real(t) => t,
    }
}

pub open spec fn bad_argument() -> ErrorModel {
    failure(ErrorKind::Param, "Invalid type of command argument"@)
}

/// The texts that a value stands for among the arguments of a program: a
/// string stands for itself, a number for its text, an array for what its
/// items stand for, in order. Nothing else can be an argument.
pub open spec fn argument_texts(value: JsonModel) -> Result<Seq<Seq<char>>, ErrorModel>
    decreases value,
{
    match value {
        JsonModel::String(s) => Ok(seq![s]),
        JsonModel::Number(n) => Ok(seq![number_text(n)]),
        JsonModel::Array(items) => arguments_texts(items),
        _ => Err(bad_argument()),
    }
}

/// The texts that a list of values stands for: those of each value, one after
/// the other.
pub open spec fn arguments_texts(items: Seq<JsonModel>) -> Result<Seq<Seq<char>>, ErrorModel>
    decreases items,
{
    if items.len() == 0 {
        Ok(Seq::empty())
    } else {
        match arguments_texts(items.drop_last()) {
            Err(e) => Err(e),
            Ok(front) => match argument_texts(items.last()) {
                Err(e) => Err(e),
                Ok(back) => Ok(front + back),
            },
        }
    }
}

fn number_to_text(n: &JsonNumber) -> (r: String)
    ensures
        r@ == number_text(n@),
{
    match n {
        JsonNumber::Unsigned(u) => u64_to_string(*u),
        JsonNumber::Negative(i) => i64_to_string(*i),
        JsonNumber::Real(t) => t.clone(),
    }
}

fn collect_argument(arg: &Json, out: &mut Vec<String>) -> (r: Result<(), CommandError>)
    ensures
        match r {
            Ok(_) => argument_texts(arg@) is Ok && views(final(out)@) == views(old(out)@)
                + argument_texts(arg@)->Ok_0,
            Err(e) => argument_texts(arg@) == Err::<Seq<Seq<char>>, ErrorModel>(e@),
        },
    decreases arg,
{
    match arg {
        Json::Number(n) => {
            let t = number_to_text(n);
            proof {
                assert(views(out@.push(t)) =~= views(out@) + seq![t@]);
            }
            out.push(t);
            Ok(())
        },
        Json::String(s) => {
            let t = s.clone();
            proof {
                assert(views(out@.push(t)) =~= views(out@) + seq![t@]);
            }
            out.push(t);
            Ok(())
        },
        Json::Array(items) => {
            let ghost start = views(out@);
            let mut i: usize = 0;
            proof {
                assert(items@.take(0) =~= Seq::<Json>::empty());
                assert(start + Seq::<Seq<char>>::empty() =~= start);
            }
            while i < items.len()
                invariant
                    i <= items.len(),
                    arg is Array,
                    arg->Array_0 == *items,
                    arguments_texts(trees(items@.take(i as int))) is Ok,
                    views(out@) == start + arguments_texts(trees(items@.take(i as int)))->Ok_0,
                decreases items.len() - i,
            {
                proof {
                    assert(decreases_to!(*arg => arg->Array_0));
                    assert(decreases_to!(*items => items@));
                    assert(decreases_to!(items@ => items@[i as int]));
                    crate::json::lemma_trees_push(items@.take(i as int), items@[i as int]);
                    assert(items@.take(i + 1) =~= items@.take(i as int).push(items@[i as int]));
                    assert(trees(items@.take(i + 1)).drop_last() =~= trees(items@.take(i as int)));
                }
                let ghost before = views(out@);
                match collect_argument(&items[i], out) {
                    Ok(_) => {
                        proof {
                            let front = arguments_texts(trees(items@.take(i as int)))->Ok_0;
                            let back = argument_texts(items@[i as int]@)->Ok_0;
                            assert((start + front) + back =~= start + (front + back));
                        }
                    },
                    Err(e) => {
                        proof {
                            lemma_trees(items@);
                            lemma_trees(items@.take(i + 1));
                            assert(trees(items@).take(i + 1) =~= trees(items@.take(i + 1)));
                            assert(trees(items@.take(i + 1)).last() == items@[i as int]@);
                            assert(arguments_texts(trees(items@.take(i + 1))) is Err);
                            lemma_failure_spreads(trees(items@), i as int);
                        }
                        return Err(e);
                    },
                }
                i = i + 1;
            }
            proof {
                assert(items@.take(items@.len() as int) =~= items@);
            }
            Ok(())
        },
        _ => Err(CommandError::new(ErrorKind::Param, "Invalid type of command argument")),
    }
}

/// Where the items up to and with item `i` cannot be arguments, the whole
/// list cannot, and for the same reason.
pub proof fn lemma_failure_spreads(items: Seq<JsonModel>, i: int)
    requires
        0 <= i < items.len(),
        arguments_texts(items.take(i + 1)) is Err,
    ensures
        arguments_texts(items) == arguments_texts(items.take(i + 1)),
    decreases items.len() - i,
{
    if i + 1 < items.len() {
        assert(items.take(i + 2).drop_last() =~= items.take(i + 1));
        lemma_failure_spreads(items, i + 1);
    } else {
        assert(items.take(i + 1) =~= items);
    }
}

/// The arguments of a program, from the `arguments` of a request: nested
/// arrays are flattened, numbers are written out.
pub fn convert_args_to_strings(args: &Vec<Json>) -> (r: Result<Vec<String>, CommandError>)
    ensures
        match r {
            Ok(texts) => arguments_texts(trees(args@)) == Ok::<Seq<Seq<char>>, ErrorModel>(
                views(texts@),
            ),
            Err(e) => arguments_texts(trees(args@)) == Err::<Seq<Seq<char>>, ErrorModel>(e@),
        },
{
    let mut out: Vec<String> = Vec::new();
    let mut i: usize = 0;
    proof {
        assert(args@.take(0) =~= Seq::<Json>::empty());
        assert(views(out@) =~= Seq::<Seq<char>>::empty());
    }
    while i < args.len()
        invariant
            i <= args.len(),
            arguments_texts(trees(args@.take(i as int))) == Ok::<Seq<Seq<char>>, ErrorModel>(
                views(out@),
            ),
        decreases args.len() - i,
    {
        proof {
            crate::json::lemma_trees_push(args@.take(i as int), args@[i as int]);
            assert(args@.take(i + 1) =~= args@.take(i as int).push(args@[i as int]));
            assert(trees(args@.take(i + 1)).drop_last() =~= trees(args@.take(i as int)));
        }
        match collect_argument(&args[i], &mut out) {
            Ok(_) => {},
            Err(e) => {
                proof {
                    lemma_trees(args@);
                    lemma_trees(args@.take(i + 1));
                    assert(trees(args@).take(i + 1) =~= trees(args@.take(i + 1)));
                    assert(trees(args@.take(i + 1)).last() == args@[i as int]@);
                    assert(arguments_texts(trees(args@.take(i + 1))) is Err);
                    lemma_failure_spreads(trees(args@), i as int);
                }
                return Err(e);
            },
        }
        i = i + 1;
    }
    proof {
        assert(args@.take(args@.len() as int) =~= args@);
    }
    Ok(out)
}

/// What the end of a program means: on success its output without the white
/// space around it, else its error output, likewise, as the failure.
pub fn exec_outcome(success: bool, stdout: &str, stderr: &str) -> (r: Result<String, CommandError>)
    ensures
        match r {
            Ok(out) => success && out@ == trimmed(stdout@),
            Err(e) => !success && e@ == failure(ErrorKind::Io, trimmed(stderr@)),
        },
{
    if success {
        Ok(trim(stdout))
    } else {
        Err(CommandError { kind: ErrorKind::Io, message: trim(stderr) })
    }
}

/// The outcome of a request that ran a program. A failure of the program is
/// the failure of the request, unless the request asked to ignore errors:
/// then the error output is the content.
pub fn execute_outcome(run: Result<String, CommandError>, ignore_error: bool) -> (r: Result<
    CommandResult,
    CommandError,
>)
    ensures
        match run {
            Ok(out) => r is Ok && r->Ok_0@ == success_with(JsonModel::String(out@)),
            Err(e) => if ignore_error {
                r is Ok && r->Ok_0@ == success_with(JsonModel::String(e.message@))
            } else {
                r is Err && r->Err_0@ == e@
            },
        },
{
    match run {
        Ok(out) => Ok(CommandResult::with_content(Json::String(out))),
        Err(e) => {
            if ignore_error {
                Ok(CommandResult::with_content(Json::String(e.message)))
            } else {
                Err(e)
            }
        },
    }
}

} // verus!
