//! One request to the importer and the command line it becomes.

use vstd::prelude::*;

verus! {

/// What the caller asks of the importer: where the CSV files are, which of
/// them to load, and five settings that each may be given or left out.
#[derive(Debug, PartialEq, Eq)]
pub struct InvocationRequest {
    /// Folder that holds the CSV files.
    pub folder: String,
    /// Glob pattern for the file names.
    pub pattern: String,
    /// Path of the target database.
    pub db_path: Option<String>,
    /// Name of the text encoding of the files.
    pub encoding: Option<String>,
    /// Plant identifier.
    pub plant: Option<String>,
    /// Machine identifier.
    pub machine_id: Option<String>,
    /// Data-label tag.
    pub data_label: Option<String>,
}

/// A request as plain text values.
pub ghost struct InvocationRequestView {
    pub folder: Seq<char>,
    pub pattern: Seq<char>,
    pub db_path: Option<Seq<char>>,
    pub encoding: Option<Seq<char>>,
    pub plant: Option<Seq<char>>,
    pub machine_id: Option<Seq<char>>,
    pub data_label: Option<Seq<char>>,
}

/// The text of an optional setting.
pub open spec fn text_of(value: Option<String>) -> Option<Seq<char>> {
    match value {
        Some(text) => Some(text@),
        None => None,
    }
}

impl View for InvocationRequest {
    type V = InvocationRequestView;

    open spec fn view(&self) -> InvocationRequestView {
        InvocationRequestView {
            folder: self.folder@,
            pattern: self.pattern@,
            db_path: text_of(self.db_path),
            encoding: text_of(self.encoding),
            plant: text_of(self.plant),
            machine_id: text_of(self.machine_id),
            data_label: text_of(self.data_label),
        }
    }
}

/// The tokens of one optional setting: the flag and then the value when the
/// value is given, nothing when it is not.
pub open spec fn optional_pair(flag: Seq<char>, value: Option<Seq<char>>) -> Seq<Seq<char>> {
    match value {
        Some(text) => seq![flag, text],
        None => Seq::empty(),
    }
}

/// The command-line tokens of a request: the folder and the pattern, each
/// behind its flag, then the settings that are given, in the order database
/// path, encoding, plant, machine identifier, data label.
pub open spec fn arguments(request: InvocationRequestView) -> Seq<Seq<char>> {
    seq!["--folder"@, request.folder, "--pattern"@, request.pattern]
        + optional_pair("--db"@, request.db_path)
        + optional_pair("--encoding"@, request.encoding)
        + optional_pair("--plant"@, request.plant)
        + optional_pair("--machine-id"@, request.machine_id)
        + optional_pair("--data-label"@, request.data_label)
}

/// How many tokens an optional setting contributes.
pub open spec fn pair_len(value: Option<Seq<char>>) -> nat {
    if value is Some {
        2
    } else {
        0
    }
}

/// A request becomes four tokens for the folder and the pattern and two for
/// each setting that is given; a setting that is left out adds none.
pub proof fn lemma_arguments_len(request: InvocationRequestView)
    ensures
        arguments(request).len() == 4 + pair_len(request.db_path) + pair_len(request.encoding)
            + pair_len(request.plant) + pair_len(request.machine_id) + pair_len(
            request.data_label,
        ),
        arguments(request).take(4) == seq![
            "--folder"@,
            request.folder,
            "--pattern"@,
            request.pattern,
        ],
{
    assert(arguments(request).take(4) =~= seq![
        "--folder"@,
        request.folder,
        "--pattern"@,
        request.pattern,
    ]);
}

/// The texts of a list of tokens.
pub open spec fn texts(tokens: Seq<String>) -> Seq<Seq<char>> {
    tokens.map_values(|token: String| token@)
}

/// Appends `flag` and `value` to `args`.
fn push_pair(args: &mut Vec<String>, flag: &str, value: &String)
    ensures
        texts(final(args)@) == texts(old(args)@) + seq![flag@, value@],
{
    args.push(flag.to_owned());
    args.push(value.clone());
    assert(texts(args@) =~= texts(old(args)@) + seq![flag@, value@]);
}

/// Appends `flag` and the value to `args` when a value is given.
fn push_optional(args: &mut Vec<String>, flag: &str, value: &Option<String>)
    ensures
        texts(final(args)@) == texts(old(args)@) + optional_pair(flag@, text_of(*value)),
{
    match value {
        Some(text) => {
            push_pair(args, flag, text);
        },
        None => {
            assert(texts(args@) =~= texts(args@) + Seq::<Seq<char>>::empty());
        },
    }
}

impl InvocationRequest {
    /// Builds the command-line tokens of this request. The contents of the
    /// fields are not examined.
    pub fn build_args(&self) -> (args: Vec<String>)
        ensures
            texts(args@) == arguments(self@),
    {
        let mut args: Vec<String> = Vec::new();
        assert(texts(args@) =~= Seq::<Seq<char>>::empty());
        push_pair(&mut args, "--folder", &self.folder);
        push_pair(&mut args, "--pattern", &self.pattern);
        assert(texts(args@) =~= seq!["--folder"@, self.folder@, "--pattern"@, self.pattern@]);
        push_optional(&mut args, "--db", &self.db_path);
        push_optional(&mut args, "--encoding", &self.encoding);
        push_optional(&mut args, "--plant", &self.plant);
        push_optional(&mut args, "--machine-id", &self.machine_id);
        push_optional(&mut args, "--data-label", &self.data_label);
        args
    }
}

} // verus!
