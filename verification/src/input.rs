//! The inputs that an evaluation depends on.
use crate::digest::{self, copy_digest, digest_of, same_digest};
use crate::order::Comparison;
use crate::path::{self, FilePath, PathPart};
use crate::text::{self, compare_text};
use crate::time::{self, Timestamp};
use vstd::prelude::*;
use vstd::string::*;

verus! {

/// A file or directory that an evaluation read, as it was then.
#[derive(Debug)]
pub struct FileInputDesc {
    pub path: FilePath,
    pub is_directory: bool,
    /// The digest of the contents, if they could be read.
    pub content_hash: Option<String>,
    pub modified_at: Timestamp,
}

/// An environment variable that an evaluation read, as it was then.
#[derive(Debug)]
pub struct EnvInputDesc {
    pub name: String,
    /// The digest of the value, if there was one.
    pub content_hash: Option<String>,
}

/// Something that an evaluation read.
#[derive(Debug)]
pub enum Input {
    File(FileInputDesc),
    Env(EnvInputDesc),
}

/// What an input is, as opposed to what it held.
#[derive(Debug)]
pub enum InputIdentifier {
    File(FilePath),
    Env(String),
}

/// The model of a [`FileInputDesc`].
#[verifier::ext_equal]
pub struct FileInputView {
    pub path: Seq<u8>,
    pub is_directory: bool,
    pub content_hash: Option<Seq<char>>,
    pub modified_at: Timestamp,
}

/// The model of an [`EnvInputDesc`].
#[verifier::ext_equal]
pub struct EnvInputView {
    pub name: Seq<char>,
    pub content_hash: Option<Seq<char>>,
}

/// The model of an [`Input`].
#[verifier::ext_equal]
pub enum InputView {
    File(FileInputView),
    Env(EnvInputView),
}

/// The model of an [`InputIdentifier`].
#[verifier::ext_equal]
pub enum InputIdentifierView {
    File(Seq<u8>),
    Env(Seq<char>),
}

/// What makes two identifiers the same: for files the components of the path,
/// however it is spelled.
#[verifier::ext_equal]
pub enum InputKey {
    File(Seq<PathPart>),
    Env(Seq<char>),
}

impl View for FileInputDesc {
    type V = FileInputView;

    open spec fn view(&self) -> FileInputView {
        FileInputView {
            path: self.path@,
            is_directory: self.is_directory,
            content_hash: digest::digest_text(self.content_hash),
            modified_at: self.modified_at,
        }
    }
}

impl View for EnvInputDesc {
    type V = EnvInputView;

    open spec fn view(&self) -> EnvInputView {
        EnvInputView { name: self.name@, content_hash: digest::digest_text(self.content_hash) }
    }
}

impl View for Input {
    type V = InputView;

    open spec fn view(&self) -> InputView {
        match *self {
            Input::File(desc) => InputView::File(desc@),
            Input::Env(desc) => InputView::Env(desc@),
        }
    }
}

impl View for InputIdentifier {
    type V = InputIdentifierView;

    open spec fn view(&self) -> InputIdentifierView {
        match *self {
            InputIdentifier::File(path) => InputIdentifierView::File(path@),
            InputIdentifier::Env(name) => InputIdentifierView::Env(name@),
        }
    }
}

impl InputIdentifierView {
    /// What makes this identifier the same as another.
    pub open spec fn key(self) -> InputKey {
        match self {
            InputIdentifierView::File(path) => InputKey::File(path::components(path)),
            InputIdentifierView::Env(name) => InputKey::Env(name),
        }
    }
}

impl InputView {
    /// The digest of what the input held.
    pub open spec fn content_hash(self) -> Option<Seq<char>> {
        match self {
            InputView::File(desc) => desc.content_hash,
            InputView::Env(desc) => desc.content_hash,
        }
    }

    /// The input's path or name.
    pub open spec fn identifier(self) -> InputIdentifierView {
        match self {
            InputView::File(desc) => InputIdentifierView::File(desc.path),
            InputView::Env(desc) => InputIdentifierView::Env(desc.name),
        }
    }

    /// What makes this input the same input as another.
    pub open spec fn key(self) -> InputKey {
        self.identifier().key()
    }
}

/// The models of a list of inputs.
pub open spec fn views(inputs: Seq<Input>) -> Seq<InputView> {
    inputs.map_values(|input: Input| input@)
}

/// The order of keys: files by path, before variables by name.
pub open spec fn key_order(a: InputKey, b: InputKey) -> Comparison {
    match (a, b) {
        (InputKey::File(x), InputKey::File(y)) => path::components_order(x, y),
        (InputKey::File(_), InputKey::Env(_)) => Comparison::Less,
        (InputKey::Env(_), InputKey::File(_)) => Comparison::Greater,
        (InputKey::Env(x), InputKey::Env(y)) => text::text_order(x, y),
    }
}

/// The order of files: by path, of one path the most recently modified first.
pub open spec fn file_order(a: FileInputView, b: FileInputView) -> Comparison {
    path::path_order(a.path, b.path).or_else(time::time_order(b.modified_at, a.modified_at))
}

/// The order of variables: by name.
pub open spec fn env_order(a: EnvInputView, b: EnvInputView) -> Comparison {
    text::text_order(a.name, b.name)
}

/// The order of inputs: files before variables.
pub open spec fn input_order(a: InputView, b: InputView) -> Comparison {
    match (a, b) {
        (InputView::File(x), InputView::File(y)) => file_order(x, y),
        (InputView::File(_), InputView::Env(_)) => Comparison::Less,
        (InputView::Env(_), InputView::File(_)) => Comparison::Greater,
        (InputView::Env(x), InputView::Env(y)) => env_order(x, y),
    }
}

/// Two files are equal in every respect.
pub open spec fn equal_files(a: FileInputView, b: FileInputView) -> bool {
    &&& path::same_path(a.path, b.path)
    &&& a.is_directory == b.is_directory
    &&& a.content_hash == b.content_hash
    &&& a.modified_at == b.modified_at
}

/// Two inputs are equal in every respect.
pub open spec fn equal_inputs(a: InputView, b: InputView) -> bool {
    match (a, b) {
        (InputView::File(x), InputView::File(y)) => equal_files(x, y),
        (InputView::Env(x), InputView::Env(y)) => x == y,
        _ => false,
    }
}

/// Two inputs are the same input with the same contents, whenever they were
/// modified.
pub open spec fn same_contents(a: InputView, b: InputView) -> bool {
    match (a, b) {
        (InputView::File(x), InputView::File(y)) => {
            &&& path::same_path(x.path, y.path)
            &&& x.is_directory == y.is_directory
            &&& x.content_hash == y.content_hash
        },
        (InputView::Env(x), InputView::Env(y)) => x == y,
        _ => false,
    }
}

/// The digests of the inputs in a row. Inputs without one leave no trace.
pub open spec fn hash_source(inputs: Seq<InputView>) -> Seq<char>
    decreases inputs.len(),
{
    if inputs.len() == 0 {
        Seq::empty()
    } else {
        hash_source(inputs.drop_last()) + (match inputs.last().content_hash() {
            Some(digest) => digest,
            None => Seq::empty(),
        })
    }
}

/// Picks the description out of a file.
pub open spec fn as_file() -> spec_fn(Input) -> Option<FileInputDesc> {
    |input: Input|
        match input {
            Input::File(desc) => Some(desc),
            Input::Env(_) => None,
        }
}

/// Picks the description out of a variable.
pub open spec fn as_env() -> spec_fn(Input) -> Option<EnvInputDesc> {
    |input: Input|
        match input {
            Input::File(_) => None,
            Input::Env(desc) => Some(desc),
        }
}

impl Input {
    /// The digest of what the input held, if there is one.
    pub fn content_hash(&self) -> (result: Option<&str>)
        ensures
            match result {
                Some(digest) => self@.content_hash() == Some(digest@),
                None => self@.content_hash() is None,
            },
    {
        let digest = match self {
            Input::File(desc) => &desc.content_hash,
            Input::Env(desc) => &desc.content_hash,
        };
        match digest {
            Some(text) => Some(text.as_str()),
            None => None,
        }
    }

    /// Get the identifier for this input (path for files, name for env vars).
    /// Used to compare inputs by identity rather than content.
    pub fn identifier(&self) -> (result: InputIdentifier)
        ensures
            result@ == self@.identifier(),
    {
        match self {
            Input::File(desc) => InputIdentifier::File(desc.path.clone()),
            Input::Env(desc) => InputIdentifier::Env(desc.name.clone()),
        }
    }

    /// The text whose digest stands for all of the inputs together.
    pub fn hash_source(inputs: &[Input]) -> (result: String)
        ensures
            result@ == hash_source(views(inputs@)),
    {
        let mut result = String::new();
        let mut i: usize = 0;
        while i < inputs.len()
            invariant
                i <= inputs@.len(),
                result@ == hash_source(views(inputs@).take(i as int)),
            decreases inputs@.len() - i,
        {
            let ghost next = views(inputs@).take(i + 1);
            assert(next.drop_last() =~= views(inputs@).take(i as int));
            if let Some(digest) = inputs[i].content_hash() {
                result.append(digest);
            }
            assert(result@ =~= hash_source(next));
            i += 1;
        }
        assert(views(inputs@).take(i as int) =~= views(inputs@));
        result
    }

    /// The digest that stands for all of the inputs together.
    pub fn compute_input_hash<H: Fn(&str) -> String>(inputs: &[Input], hash: &H) -> (result: String)
        requires
            digest::hashes_any_text(*hash),
        ensures
            digest::hashes_to(*hash, hash_source(views(inputs@)), result@),
    {
        digest_of(Input::hash_source(inputs).as_str(), hash)
    }

    /// The files and the variables among the inputs, each in their order.
    pub fn partition_refs(inputs: &[Input]) -> (result: (Vec<&FileInputDesc>, Vec<&EnvInputDesc>))
        ensures
            result.0@.unref() == inputs@.filter_map(as_file()),
            result.1@.unref() == inputs@.filter_map(as_env()),
    {
        let mut file_inputs: Vec<&FileInputDesc> = Vec::new();
        let mut env_inputs: Vec<&EnvInputDesc> = Vec::new();
        let mut i: usize = 0;
        while i < inputs.len()
            invariant
                i <= inputs@.len(),
                file_inputs@.unref() == inputs@.take(i as int).filter_map(as_file()),
                env_inputs@.unref() == inputs@.take(i as int).filter_map(as_env()),
            decreases inputs@.len() - i,
        {
            let ghost (files, envs) = (file_inputs@, env_inputs@);
            proof {
                inputs@.lemma_filter_map_take_succ(as_file(), i as int);
                inputs@.lemma_filter_map_take_succ(as_env(), i as int);
            }
            match &inputs[i] {
                Input::File(desc) => {
                    file_inputs.push(desc);
                    assert(file_inputs@.unref() =~= files.unref() + seq![*desc]);
                },
                Input::Env(desc) => {
                    env_inputs.push(desc);
                    assert(env_inputs@.unref() =~= envs.unref() + seq![*desc]);
                },
            }
            i += 1;
        }
        assert(inputs@.take(i as int) =~= inputs@);
        (file_inputs, env_inputs)
    }

    /// Whether `a` may be dropped beside `b`: it is the same input with the same
    /// contents. When they were modified does not matter.
    pub fn dedup(a: &mut Input, b: &mut Input) -> (result: bool)
        ensures
            result == same_contents(old(a)@, old(b)@),
            *final(a) == *old(a),
            *final(b) == *old(b),
    {
        a.has_contents_of(b)
    }

    /// Whether this is the same input as `other`, with the same contents.
    pub fn has_contents_of(&self, other: &Input) -> (result: bool)
        ensures
            result == same_contents(self@, other@),
    {
        match (self, other) {
            (Input::File(f), Input::File(g)) => f.path.same(&g.path) && same_digest(
                &f.content_hash,
                &g.content_hash,
            ) && f.is_directory == g.is_directory,
            (Input::Env(f), Input::Env(g)) => {
                assert(f@ == g@ <==> f@.name == g@.name && f@.content_hash == g@.content_hash);
                f.name == g.name && same_digest(&f.content_hash, &g.content_hash)
            },
            _ => false,
        }
    }

    /// How this input stands to another.
    pub fn compare(&self, other: &Input) -> (result: Comparison)
        ensures
            result == input_order(self@, other@),
    {
        match (self, other) {
            (Input::File(f), Input::File(g)) => f.compare(g),
            (Input::File(_), Input::Env(_)) => Comparison::Less,
            (Input::Env(_), Input::File(_)) => Comparison::Greater,
            (Input::Env(f), Input::Env(g)) => f.compare(g),
        }
    }
}

impl FileInputDesc {
    /// How this file stands to another: by path first, then by time of
    /// modification in reverse order.
    pub fn compare(&self, other: &FileInputDesc) -> (result: Comparison)
        ensures
            result == file_order(self@, other@),
    {
        match self.path.compare(&other.path) {
            Comparison::Equal => other.modified_at.compare(self.modified_at),
            decided => decided,
        }
    }
}

impl EnvInputDesc {
    /// How this variable stands to another: by name.
    pub fn compare(&self, other: &EnvInputDesc) -> (result: Comparison)
        ensures
            result == env_order(self@, other@),
    {
        compare_text(self.name.as_str(), other.name.as_str())
    }
}

impl PartialEq for FileInputDesc {
    fn eq(&self, other: &FileInputDesc) -> (result: bool) {
        self.path.same(&other.path) && self.is_directory == other.is_directory && same_digest(
            &self.content_hash,
            &other.content_hash,
        ) && self.modified_at == other.modified_at
    }
}

impl vstd::std_specs::cmp::PartialEqSpecImpl for FileInputDesc {
    open spec fn obeys_eq_spec() -> bool {
        true
    }

    open spec fn eq_spec(&self, other: &FileInputDesc) -> bool {
        equal_files(self@, other@)
    }
}

impl Eq for FileInputDesc {

}

impl PartialEq for EnvInputDesc {
    fn eq(&self, other: &EnvInputDesc) -> (result: bool) {
        assert(self@ == other@ <==> self@.name == other@.name && self@.content_hash
            == other@.content_hash);
        self.name == other.name && same_digest(&self.content_hash, &other.content_hash)
    }
}

impl vstd::std_specs::cmp::PartialEqSpecImpl for EnvInputDesc {
    open spec fn obeys_eq_spec() -> bool {
        true
    }

    open spec fn eq_spec(&self, other: &EnvInputDesc) -> bool {
        self@ == other@
    }
}

impl Eq for EnvInputDesc {

}

impl PartialEq for Input {
    fn eq(&self, other: &Input) -> (result: bool) {
        match (self, other) {
            (Input::File(f), Input::File(g)) => *f == *g,
            (Input::Env(f), Input::Env(g)) => *f == *g,
            _ => false,
        }
    }
}

impl vstd::std_specs::cmp::PartialEqSpecImpl for Input {
    open spec fn obeys_eq_spec() -> bool {
        true
    }

    open spec fn eq_spec(&self, other: &Input) -> bool {
        equal_inputs(self@, other@)
    }
}

impl Eq for Input {

}

impl PartialEq for InputIdentifier {
    fn eq(&self, other: &InputIdentifier) -> (result: bool) {
        match (self, other) {
            (InputIdentifier::File(f), InputIdentifier::File(g)) => f.same(g),
            (InputIdentifier::Env(f), InputIdentifier::Env(g)) => *f == *g,
            _ => false,
        }
    }
}

impl vstd::std_specs::cmp::PartialEqSpecImpl for InputIdentifier {
    open spec fn obeys_eq_spec() -> bool {
        true
    }

    open spec fn eq_spec(&self, other: &InputIdentifier) -> bool {
        self@.key() == other@.key()
    }
}

impl Eq for InputIdentifier {

}

impl PartialOrd for FileInputDesc {
    fn partial_cmp(&self, other: &FileInputDesc) -> (result: Option<std::cmp::Ordering>) {
        Some(self.compare(other).into_std())
    }
}

impl vstd::std_specs::cmp::PartialOrdSpecImpl for FileInputDesc {
    open spec fn obeys_partial_cmp_spec() -> bool {
        true
    }

    open spec fn partial_cmp_spec(&self, other: &FileInputDesc) -> Option<std::cmp::Ordering> {
        Some(file_order(self@, other@).std_ordering())
    }
}

impl PartialOrd for EnvInputDesc {
    fn partial_cmp(&self, other: &EnvInputDesc) -> (result: Option<std::cmp::Ordering>) {
        Some(self.compare(other).into_std())
    }
}

impl vstd::std_specs::cmp::PartialOrdSpecImpl for EnvInputDesc {
    open spec fn obeys_partial_cmp_spec() -> bool {
        true
    }

    open spec fn partial_cmp_spec(&self, other: &EnvInputDesc) -> Option<std::cmp::Ordering> {
        Some(env_order(self@, other@).std_ordering())
    }
}

impl PartialOrd for Input {
    fn partial_cmp(&self, other: &Input) -> (result: Option<std::cmp::Ordering>) {
        Some(self.compare(other).into_std())
    }
}

impl vstd::std_specs::cmp::PartialOrdSpecImpl for Input {
    open spec fn obeys_partial_cmp_spec() -> bool {
        true
    }

    open spec fn partial_cmp_spec(&self, other: &Input) -> Option<std::cmp::Ordering> {
        Some(input_order(self@, other@).std_ordering())
    }
}

impl Clone for FileInputDesc {
    fn clone(&self) -> (result: FileInputDesc)
        ensures
            result@ == self@,
    {
        FileInputDesc {
            path: self.path.clone(),
            is_directory: self.is_directory,
            content_hash: copy_digest(&self.content_hash),
            modified_at: self.modified_at,
        }
    }
}

impl Clone for EnvInputDesc {
    fn clone(&self) -> (result: EnvInputDesc)
        ensures
            result@ == self@,
    {
        EnvInputDesc {
            name: self.name.clone(),
            content_hash: copy_digest(&self.content_hash),
        }
    }
}

impl Clone for Input {
    fn clone(&self) -> (result: Input)
        ensures
            result@ == self@,
    {
        match self {
            Input::File(desc) => Input::File(desc.clone()),
            Input::Env(desc) => Input::Env(desc.clone()),
        }
    }
}

impl Clone for InputIdentifier {
    fn clone(&self) -> (result: InputIdentifier)
        ensures
            result@ == self@,
    {
        match self {
            InputIdentifier::File(path) => InputIdentifier::File(path.clone()),
            InputIdentifier::Env(name) => InputIdentifier::Env(name.clone()),
        }
    }
}

} // verus!
