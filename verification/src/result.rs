//! The envelope in which every command returns its outcome.

use crate::json::{lemma_entry_trees_push, Json, JsonModel};
use crate::text::views;
use vstd::prelude::*;
use vstd::string::StringExecFns;

verus! {

/// How a command ended.
#[derive(Clone, Copy, Debug, PartialEq, Eq, Structural)]
pub enum Status {
    Success,
    /// There was nothing to do.
    Ignored,
    Failed,
}

impl Status {
    pub open spec fn text(self) -> Seq<char> {
        match self {
            Status::Success => "ok"@,
            Status::Ignored => "ignored"@,
            Status::Failed => "error"@,
        }
    }

    pub fn as_str(&self) -> (r: &'static str)
        ensures
            r@ == self.text(),
    {
        match self {
            Status::Success => "ok",
            Status::Ignored => "ignored",
            Status::Failed => "error",
        }
    }
}

/// The outcome of a command: what it produced, how it ended, a message for
/// the user, and the paths it wrote.
#[derive(Clone, Debug)]
pub struct CommandResult {
    pub content: Json,
    pub status: Status,
    pub message: String,
    pub output_paths: Vec<String>,
}

/// An outcome as contracts speak of it.
pub struct ResultModel {
    pub content: JsonModel,
    pub status: Status,
    pub message: Seq<char>,
    pub output_paths: Seq<Seq<char>>,
}

impl View for CommandResult {
    type V = ResultModel;

    open spec fn view(&self) -> ResultModel {
        ResultModel {
            content: self.content@,
            status: self.status,
            message: self.message@,
            output_paths: views(self.output_paths@),
        }
    }
}

/// The outcome that says no more than that the command went well.
pub open spec fn plain_success() -> ResultModel {
    ResultModel {
        content: JsonModel::Null,
        status: Status::Success,
        message: Seq::empty(),
        output_paths: Seq::empty(),
    }
}

/// A successful outcome with the given content.
pub open spec fn success_with(content: JsonModel) -> ResultModel {
    ResultModel { content, ..plain_success() }
}

/// The envelope of an outcome: an object of exactly four members.
pub open spec fn envelope(r: ResultModel) -> JsonModel {
    JsonModel::Object(
        seq![
            ("content"@, r.content),
            ("message"@, JsonModel::String(r.message)),
            ("output_paths"@, JsonModel::of_texts(r.output_paths)),
            ("status"@, JsonModel::String(r.status.text())),
        ],
    )
}

impl CommandResult {
    pub fn default() -> (r: CommandResult)
        ensures
            r@ == plain_success(),
    {
        let r = CommandResult {
            content: Json::Null,
            status: Status::Success,
            message: String::new(),
            output_paths: Vec::new(),
        };
        proof {
            assert(views(r.output_paths@) =~= Seq::<Seq<char>>::empty());
        }
        r
    }

    /// A successful outcome with the given content.
    pub fn with_content(content: Json) -> (r: CommandResult)
        ensures
            r@ == success_with(content@),
    {
        let r = CommandResult {
            content,
            status: Status::Success,
            message: String::new(),
            output_paths: Vec::new(),
        };
        proof {
            assert(views(r.output_paths@) =~= Seq::<Seq<char>>::empty());
        }
        r
    }

    pub fn add_output_path(&mut self, path: &str)
        ensures
            final(self)@ == (ResultModel {
                output_paths: old(self)@.output_paths.push(path@),
                ..old(self)@
            }),
    {
        let p = String::from_str(path);
        proof {
            assert(views(self.output_paths@.push(p)) =~= views(self.output_paths@).push(path@));
        }
        self.output_paths.push(p);
    }

    /// The envelope that is handed to the caller: the four members `content`,
    /// `message`, `output_paths` and `status`, the status being one of `ok`,
    /// `ignored` and `error`.
    pub fn to_json(&self) -> (r: Json)
        ensures
            r@ == envelope(self@),
            r@ is Object,
            r@->Object_0.len() == 4,
            r@.member("status"@) == JsonModel::String("ok"@) || r@.member("status"@)
                == JsonModel::String("ignored"@) || r@.member("status"@) == JsonModel::String(
                "error"@,
            ),
    {
        let mut entries: Vec<(String, Json)> = Vec::new();
        let e0 = (String::from_str("content"), self.content.duplicate());
        let e1 = (String::from_str("message"), Json::String(self.message.clone()));
        let e2 = (String::from_str("output_paths"), Json::texts(&self.output_paths));
        let e3 = (String::from_str("status"), Json::text(self.status.as_str()));
        proof {
            lemma_entry_trees_push(entries@, e0);
            lemma_entry_trees_push(entries@.push(e0), e1);
            lemma_entry_trees_push(entries@.push(e0).push(e1), e2);
            lemma_entry_trees_push(entries@.push(e0).push(e1).push(e2), e3);
        }
        entries.push(e0);
        entries.push(e1);
        entries.push(e2);
        entries.push(e3);
        let r = Json::Object(entries);
        proof {
            assert(r@->Object_0 =~= envelope(self@)->Object_0);
            law_envelope_shape(self@);
        }
        r
    }
}

/// Every envelope is an object with exactly the members `content`, `message`,
/// `output_paths` and `status`; the status is one of `ok`, `ignored` and
/// `error`, and the output paths are an array of strings.
pub proof fn law_envelope_shape(r: ResultModel)
    ensures
        envelope(r) is Object,
        envelope(r)->Object_0.len() == 4,
        envelope(r).member("content"@) == r.content,
        envelope(r).member("message"@) == JsonModel::String(r.message),
        envelope(r).member("output_paths"@) is Array,
        envelope(r).member("output_paths"@)->Array_0.len() == r.output_paths.len(),
        forall|i: int|
            0 <= i < r.output_paths.len() ==> (#[trigger] envelope(r).member(
                "output_paths"@,
            )->Array_0[i]) is String,
        envelope(r).member("status"@) == JsonModel::String(r.status.text()),
        r.status.text() == "ok"@ || r.status.text() == "ignored"@ || r.status.text() == "error"@,
{
    reveal_strlit("content");
    reveal_strlit("message");
    reveal_strlit("output_paths");
    reveal_strlit("status");
    let entries = envelope(r)->Object_0;
    reveal_with_fuel(crate::json::lookup, 5);
    assert(entries.skip(1)[0] == entries[1]);
    assert(entries.skip(1).skip(1)[0] == entries[2]);
    assert(entries.skip(1).skip(1).skip(1)[0] == entries[3]);
    assert("content"@ != "message"@) by {
        assert("content"@[0] != "message"@[0]);
    }
    assert("content"@ != "output_paths"@) by {
        assert("content"@[0] != "output_paths"@[0]);
    }
    assert("content"@ != "status"@) by {
        assert("content"@[0] != "status"@[0]);
    }
    assert("message"@ != "output_paths"@) by {
        assert("message"@[0] != "output_paths"@[0]);
    }
    assert("message"@ != "status"@) by {
        assert("message"@[0] != "status"@[0]);
    }
    assert("output_paths"@ != "status"@) by {
        assert("output_paths"@[0] != "status"@[0]);
    }
}

} // verus!
