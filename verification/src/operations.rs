//! The registry of the operations that the device supports.
//!
//! Each operation is defined by one file, named after the operation. A file
//! holds `key = "value"` lines: `template` gives the SmartREST template id of
//! the operation, `command` the program that handles it. Lines with other
//! keys, blank lines and lines that begin with `#` are passed over.

use crate::bus::{cloud_in_prefix, cloud_in_prefix_topic};
use crate::text::{
    bytes_eq, find, find_byte, is_blank, join, lemma_find, lemma_trim_nothing, split, split_fields,
    trim, trim_end, trim_start, trimmed, views,
};
use vstd::prelude::*;
use vstd::slice::*;
use vstd::string::*;

verus! {

/// What one line of a definition says.
pub enum Line {
    Blank,
    Entry { key: Seq<u8>, value: Seq<u8> },
    Malformed,
}

/// A line is blank, or a comment, or `key = "value"`.
pub open spec fn line_of(text: Seq<u8>) -> Line {
    let t = trim(text);
    if t.len() == 0 || t[0] == 0x23 {
        Line::Blank
    } else {
        match find(t, 0x3d, 0) {
            None => Line::Malformed,
            Some(at) => {
                let key = trim(t.subrange(0, at));
                let value = trim(t.subrange(at + 1, t.len() as int));
                if value.len() >= 2 && value[0] == 0x22 && value.last() == 0x22 {
                    Line::Entry { key, value: value.subrange(1, value.len() - 1) }
                } else {
                    Line::Malformed
                }
            },
        }
    }
}

/// A key that neither begins nor ends with a blank, holds no `=` and does
/// not begin a comment.
pub open spec fn is_key(key: Seq<u8>) -> bool {
    &&& key.len() > 0
    &&& !is_blank(key[0])
    &&& !is_blank(key.last())
    &&& key[0] != 0x23
    &&& forall|j: int| 0 <= j < key.len() ==> key[j] != 0x3d
}

/// The line `<key> = "<value>"` is read as the entry of the key and the
/// value.
pub proof fn lemma_line_of_entry(key: Seq<u8>, value: Seq<u8>)
    requires
        is_key(key),
    ensures
        line_of(key + seq![0x20u8, 0x3du8, 0x20u8, 0x22u8] + value + seq![0x22u8]) == (Line::Entry {
            key,
            value,
        }),
{
    let line = key + seq![0x20u8, 0x3du8, 0x20u8, 0x22u8] + value + seq![0x22u8];
    let at: int = key.len() as int + 1;
    assert(line[0] == key[0]);
    assert(line.last() == 0x22u8);
    lemma_trim_nothing(line);
    assert forall|j: int| 0 <= j < at implies line[j] != 0x3d by {
        if j < key.len() {
            assert(line[j] == key[j]);
        }
    }
    assert(line[at] == 0x3d);
    crate::text::lemma_find_at(line, 0x3d, at);

    let left = line.subrange(0, at);
    assert(left =~= key.push(0x20u8));
    assert(left.drop_last() =~= key);
    assert(trim_start(left) == left) by {
        assert(left[0] == key[0]);
    }
    assert(trim_end(left) == trim_end(key));
    assert(trim_end(key) == key);
    assert(trim(left) == key);

    let right = line.subrange(at + 1, line.len() as int);
    let quoted = seq![0x22u8] + value + seq![0x22u8];
    assert(right =~= seq![0x20u8] + quoted);
    assert(right.drop_first() =~= quoted);
    assert(trim_start(right) == trim_start(quoted));
    assert(quoted[0] == 0x22u8);
    assert(trim_start(quoted) == quoted);
    assert(quoted.last() == 0x22u8);
    assert(trim_end(quoted) == quoted);
    assert(trim(right) == quoted);
    assert(quoted.subrange(1, quoted.len() - 1) =~= value);
}

/// What one line of a definition says, as it was read.
#[derive(Debug)]
pub enum ParsedLine {
    Blank,
    Entry { key: Vec<u8>, value: Vec<u8> },
    Malformed,
}

impl View for ParsedLine {
    type V = Line;

    open spec fn view(&self) -> Line {
        match self {
            ParsedLine::Blank => Line::Blank,
            ParsedLine::Entry { key, value } => Line::Entry { key: key@, value: value@ },
            ParsedLine::Malformed => Line::Malformed,
        }
    }
}

/// Reads one line of a definition.
pub fn parse_line(text: &[u8]) -> (line: ParsedLine)
    ensures
        line@ == line_of(text@),
{
    let t = trimmed(text);
    if t.len() == 0 || t[0] == 0x23 {
        return ParsedLine::Blank;
    }
    match find_byte(t.as_slice(), 0x3d, 0) {
        None => ParsedLine::Malformed,
        Some(at) => {
            proof {
                lemma_find(t@, 0x3d, 0);
            }
            let key = trimmed(slice_subrange(t.as_slice(), 0, at));
            let value = trimmed(slice_subrange(t.as_slice(), at + 1, t.len()));
            if value.len() >= 2 && value[0] == 0x22 && value[value.len() - 1] == 0x22 {
                ParsedLine::Entry {
                    key,
                    value: slice_to_vec(slice_subrange(value.as_slice(), 1, value.len() - 1)),
                }
            } else {
                ParsedLine::Malformed
            }
        },
    }
}

/// A supported operation.
#[derive(Debug)]
pub struct Operation {
    pub name: Vec<u8>,
    pub template: Vec<u8>,
    pub command: Option<Vec<u8>>,
}

pub struct OperationView {
    pub name: Seq<u8>,
    pub template: Seq<u8>,
    pub command: Option<Seq<u8>>,
}

impl View for Operation {
    type V = OperationView;

    open spec fn view(&self) -> OperationView {
        OperationView {
            name: self.name@,
            template: self.template@,
            command: crate::software::optional_bytes(self.command),
        }
    }
}

impl Operation {
    /// The command that handles the operation, if it has one.
    pub fn command(&self) -> (command: Option<Vec<u8>>)
        ensures
            crate::software::optional_bytes(command) == self@.command,
    {
        crate::software::copy_optional(&self.command)
    }
}

/// Why the registry cannot be built.
#[derive(Debug)]
pub enum OperationsError {
    /// A line of the definition is neither blank nor `key = "value"`.
    Malformed { name: Vec<u8> },
    /// The definition gives no template.
    MissingTemplate { name: Vec<u8> },
    /// The template is not three digits.
    InvalidTemplate { name: Vec<u8> },
    /// An earlier definition has the same template.
    DuplicateTemplate { name: Vec<u8> },
}

pub enum OperationsErrorView {
    Malformed { name: Seq<u8> },
    MissingTemplate { name: Seq<u8> },
    InvalidTemplate { name: Seq<u8> },
    DuplicateTemplate { name: Seq<u8> },
}

impl View for OperationsError {
    type V = OperationsErrorView;

    open spec fn view(&self) -> OperationsErrorView {
        match self {
            OperationsError::Malformed { name } => OperationsErrorView::Malformed { name: name@ },
            OperationsError::MissingTemplate { name } => OperationsErrorView::MissingTemplate {
                name: name@,
            },
            OperationsError::InvalidTemplate { name } => OperationsErrorView::InvalidTemplate {
                name: name@,
            },
            OperationsError::DuplicateTemplate {
                name,
            } => OperationsErrorView::DuplicateTemplate { name: name@ },
        }
    }
}

/// What the first `n` lines of a definition give: the template and the
/// command, each as its last line says; none where a line is malformed.
pub open spec fn settings(lines: Seq<Seq<u8>>, n: nat) -> Option<
    (Option<Seq<u8>>, Option<Seq<u8>>),
>
    decreases n,
{
    if n == 0 || n > lines.len() {
        Some((None, None))
    } else {
        match settings(lines, (n - 1) as nat) {
            None => None,
            Some((template, command)) => match line_of(lines[n - 1]) {
                Line::Malformed => None,
                Line::Blank => Some((template, command)),
                Line::Entry { key, value } => if key == crate::text::ascii("template"@) {
                    Some((Some(value), command))
                } else if key == crate::text::ascii("command"@) {
                    Some((template, Some(value)))
                } else {
                    Some((template, command))
                },
            },
        }
    }
}

/// A template is three decimal digits.
pub open spec fn is_template(id: Seq<u8>) -> bool {
    id.len() == 3 && crate::text::all_digits(id)
}

/// The operation that the file `name` with `content` defines.
pub open spec fn defined(name: Seq<u8>, content: Seq<u8>) -> Result<
    OperationView,
    OperationsErrorView,
> {
    let lines = split(content, 0x0a);
    match settings(lines, lines.len()) {
        None => Err(OperationsErrorView::Malformed { name }),
        Some((None, _)) => Err(OperationsErrorView::MissingTemplate { name }),
        Some((Some(template), command)) => if is_template(template) {
            Ok(OperationView { name, template, command })
        } else {
            Err(OperationsErrorView::InvalidTemplate { name })
        },
    }
}

proof fn lemma_settings_none_stays(lines: Seq<Seq<u8>>, n: nat, m: nat)
    requires
        n <= m <= lines.len(),
        settings(lines, n) is None,
    ensures
        settings(lines, m) is None,
    decreases m - n,
{
    if n < m {
        lemma_settings_none_stays(lines, n, (m - 1) as nat);
    }
}

fn template_is_valid(id: &[u8]) -> (valid: bool)
    ensures
        valid == is_template(id@),
{
    if id.len() != 3 {
        return false;
    }
    let valid = 48 <= id[0] && id[0] <= 57 && 48 <= id[1] && id[1] <= 57 && 48 <= id[2] && id[2]
        <= 57;
    proof {
        if valid {
            assert forall|i: int| 0 <= i < id@.len() implies crate::text::is_digit(
                #[trigger] id@[i],
            ) by {
                assert(i == 0 || i == 1 || i == 2);
            }
        } else {
            assert(!crate::text::is_digit(id@[0]) || !crate::text::is_digit(id@[1])
                || !crate::text::is_digit(id@[2]));
        }
    }
    valid
}

/// The definition of one operation as it stands on disk.
#[derive(Debug)]
pub struct OperationFile {
    pub name: Vec<u8>,
    pub content: Vec<u8>,
}

impl Operation {
    /// Reads the definition of the operation `name`.
    pub fn parse(name: &[u8], content: &[u8]) -> (operation: Result<Operation, OperationsError>)
        ensures
            match operation {
                Ok(op) => defined(name@, content@) == Ok::<OperationView, OperationsErrorView>(
                    op@,
                ),
                Err(e) => defined(name@, content@) == Err::<OperationView, OperationsErrorView>(
                    e@,
                ),
            },
    {
        proof {
            reveal_strlit("template");
            reveal_strlit("command");
        }
        let lines = split_fields(content, 0x0a);
        let ghost all = views(lines@);
        let mut template: Option<Vec<u8>> = None;
        let mut command: Option<Vec<u8>> = None;
        let template_key = crate::text::bytes_of("template");
        let command_key = crate::text::bytes_of("command");
        let mut i: usize = 0;
        while i < lines.len()
            invariant
                i <= lines@.len(),
                all == views(lines@),
                all == split(content@, 0x0a),
                template_key@ == crate::text::ascii("template"@),
                command_key@ == crate::text::ascii("command"@),
                settings(all, i as nat) == Some(
                    (
                        crate::software::optional_bytes(template),
                        crate::software::optional_bytes(command),
                    ),
                ),
            decreases lines@.len() - i,
        {
            assert(all[i as int] == lines@[i as int]@);
            match parse_line(lines[i].as_slice()) {
                ParsedLine::Malformed => {
                    proof {
                        assert(settings(all, (i + 1) as nat) is None);
                        lemma_settings_none_stays(all, (i + 1) as nat, lines@.len() as nat);
                    }
                    return Err(OperationsError::Malformed { name: slice_to_vec(name) });
                },
                ParsedLine::Blank => {},
                ParsedLine::Entry { key, value } => {
                    if bytes_eq(key.as_slice(), template_key.as_slice()) {
                        template = Some(value);
                    } else if bytes_eq(key.as_slice(), command_key.as_slice()) {
                        command = Some(value);
                    }
                },
            }
            i += 1;
        }
        match template {
            None => Err(OperationsError::MissingTemplate { name: slice_to_vec(name) }),
            Some(template) => if template_is_valid(template.as_slice()) {
                Ok(Operation { name: slice_to_vec(name), template, command })
            } else {
                Err(OperationsError::InvalidTemplate { name: slice_to_vec(name) })
            },
        }
    }
}

/// The models of a list of operations.
pub open spec fn operation_views(operations: Seq<Operation>) -> Seq<OperationView> {
    Seq::new(operations.len(), |i: int| operations[i]@)
}

/// The first place at or after `from` where an operation has `template`.
pub open spec fn template_at(
    operations: Seq<OperationView>,
    template: Seq<u8>,
    from: int,
) -> Option<int>
    decreases operations.len() - from,
{
    if from < 0 || from >= operations.len() {
        None
    } else if operations[from].template == template {
        Some(from)
    } else {
        template_at(operations, template, from + 1)
    }
}

/// What is found is the first operation of the template; where nothing is
/// found no operation has it.
pub proof fn lemma_template_at(operations: Seq<OperationView>, template: Seq<u8>, from: int)
    requires
        0 <= from,
    ensures
        match template_at(operations, template, from) {
            Some(at) => from <= at < operations.len() && operations[at].template == template
                && forall|j: int| from <= j < at ==> operations[j].template != template,
            None => forall|j: int|
                from <= j < operations.len() ==> operations[j].template != template,
        },
    decreases operations.len() - from,
{
    if from < operations.len() && operations[from].template != template {
        lemma_template_at(operations, template, from + 1);
    }
}

/// No two operations have the same template.
pub open spec fn distinct_templates(operations: Seq<OperationView>) -> bool {
    forall|i: int, j: int|
        0 <= i < j < operations.len() ==> operations[i].template != operations[j].template
}

/// The operations that the first `n` definitions give, or the error of the
/// first definition that is refused.
pub open spec fn registered(files: Seq<(Seq<u8>, Seq<u8>)>, n: nat) -> Result<
    Seq<OperationView>,
    OperationsErrorView,
>
    decreases n,
{
    if n == 0 || n > files.len() {
        Ok(Seq::empty())
    } else {
        match registered(files, (n - 1) as nat) {
            Err(error) => Err(error),
            Ok(rest) => match defined(files[n - 1].0, files[n - 1].1) {
                Err(error) => Err(error),
                Ok(operation) => if template_at(rest, operation.template, 0) is Some {
                    Err(OperationsErrorView::DuplicateTemplate { name: operation.name })
                } else {
                    Ok(rest.push(operation))
                },
            },
        }
    }
}

proof fn lemma_registered_error_stays(files: Seq<(Seq<u8>, Seq<u8>)>, n: nat, m: nat)
    requires
        n <= m <= files.len(),
        registered(files, n) is Err,
    ensures
        registered(files, m) == registered(files, n),
    decreases m - n,
{
    if n < m {
        lemma_registered_error_stays(files, n, (m - 1) as nat);
    }
}

/// What is registered has no template twice.
pub proof fn lemma_registered_distinct(files: Seq<(Seq<u8>, Seq<u8>)>, n: nat)
    requires
        registered(files, n) is Ok,
    ensures
        distinct_templates(registered(files, n)->Ok_0),
    decreases n,
{
    if n == 0 || n > files.len() {
    } else {
        let rest = registered(files, (n - 1) as nat)->Ok_0;
        lemma_registered_distinct(files, (n - 1) as nat);
        let operation = defined(files[n - 1].0, files[n - 1].1)->Ok_0;
        lemma_template_at(rest, operation.template, 0);
    }
}

/// The definitions as pairs of name and content.
pub open spec fn file_views(files: Seq<OperationFile>) -> Seq<(Seq<u8>, Seq<u8>)> {
    Seq::new(files.len(), |i: int| (files[i].name@, files[i].content@))
}

/// The registry of the supported operations.
#[derive(Debug)]
pub struct Operations {
    operations: Vec<Operation>,
}

impl View for Operations {
    type V = Seq<OperationView>;

    closed spec fn view(&self) -> Seq<OperationView> {
        operation_views(self.operations@)
    }
}

/// The names of the first `n` operations.
pub open spec fn names(operations: Seq<OperationView>) -> Seq<Seq<u8>> {
    Seq::new(operations.len(), |i: int| operations[i].name)
}

/// The topic on which the cloud's records for each operation arrive.
pub open spec fn topics(operations: Seq<OperationView>) -> Seq<Seq<u8>> {
    Seq::new(operations.len(), |i: int| cloud_in_prefix() + operations[i].template)
}

impl Operations {
    #[verifier::type_invariant]
    spec fn distinct(self) -> bool {
        distinct_templates(operation_views(self.operations@))
    }

    /// Builds the registry from the definitions. A definition that cannot be
    /// read, or that repeats a template, fails the whole.
    pub fn try_new(files: &Vec<OperationFile>) -> (registry: Result<Operations, OperationsError>)
        ensures
            match registry {
                Ok(r) => registered(file_views(files@), files@.len() as nat) == Ok::<
                    Seq<OperationView>,
                    OperationsErrorView,
                >(r@),
                Err(e) => registered(file_views(files@), files@.len() as nat) == Err::<
                    Seq<OperationView>,
                    OperationsErrorView,
                >(e@),
            },
    {
        let ghost all = file_views(files@);
        let mut operations: Vec<Operation> = Vec::new();
        let mut i: usize = 0;
        assert(operation_views(operations@) =~= Seq::empty());
        while i < files.len()
            invariant
                i <= files@.len(),
                all == file_views(files@),
                registered(all, i as nat) == Ok::<Seq<OperationView>, OperationsErrorView>(
                    operation_views(operations@),
                ),
            decreases files@.len() - i,
        {
            assert(all[i as int] == (files@[i as int].name@, files@[i as int].content@));
            let operation = match Operation::parse(
                files[i].name.as_slice(),
                files[i].content.as_slice(),
            ) {
                Ok(operation) => operation,
                Err(error) => {
                    proof {
                        assert(registered(all, (i + 1) as nat) is Err);
                        lemma_registered_error_stays(all, (i + 1) as nat, files@.len() as nat);
                    }
                    return Err(error);
                },
            };
            if find_template(&operations, operation.template.as_slice()).is_some() {
                proof {
                    assert(registered(all, (i + 1) as nat) is Err);
                    lemma_registered_error_stays(all, (i + 1) as nat, files@.len() as nat);
                }
                return Err(
                    OperationsError::DuplicateTemplate {
                        name: slice_to_vec(operation.name.as_slice()),
                    },
                );
            }
            let ghost before = operation_views(operations@);
            operations.push(operation);
            assert(operation_views(operations@) =~= before.push(operation@));
            i += 1;
        }
        proof {
            lemma_registered_distinct(all, files@.len() as nat);
        }
        Ok(Operations { operations })
    }

    /// A registry without operations.
    pub fn empty() -> (registry: Operations)
        ensures
            registry@ == Seq::<OperationView>::empty(),
    {
        let operations: Vec<Operation> = Vec::new();
        assert(operation_views(operations@) =~= Seq::empty());
        Operations { operations }
    }

    /// The names of the operations.
    pub fn get_operations_list(&self) -> (list: Vec<Vec<u8>>)
        ensures
            views(list@) == names(self@),
    {
        let mut list: Vec<Vec<u8>> = Vec::new();
        let mut i: usize = 0;
        while i < self.operations.len()
            invariant
                i <= self.operations@.len(),
                list@.len() == i,
                forall|j: int| 0 <= j < i ==> list@[j]@ == self.operations@[j].name@,
            decreases self.operations@.len() - i,
        {
            list.push(slice_to_vec(self.operations[i].name.as_slice()));
            i += 1;
        }
        assert(views(list@) =~= names(self@));
        list
    }

    /// The topics to subscribe to, one for each operation.
    pub fn topics_for_operations(&self) -> (list: Vec<Vec<u8>>)
        ensures
            views(list@) == topics(self@),
    {
        let prefix = cloud_in_prefix_topic();
        let mut list: Vec<Vec<u8>> = Vec::new();
        let mut i: usize = 0;
        while i < self.operations.len()
            invariant
                i <= self.operations@.len(),
                list@.len() == i,
                prefix@ == cloud_in_prefix(),
                forall|j: int|
                    0 <= j < i ==> list@[j]@ == cloud_in_prefix() + self.operations@[j].template@,
            decreases self.operations@.len() - i,
        {
            list.push(join(prefix.as_slice(), self.operations[i].template.as_slice()));
            i += 1;
        }
        assert(views(list@) =~= topics(self@));
        list
    }

    /// The operation that handles `template`, if one is registered: no
    /// other operation of the registry handles it.
    pub fn matching_smartrest_template(&self, template: &[u8]) -> (found: Option<&Operation>)
        ensures
            distinct_templates(self@),
            match found {
                Some(op) => template_at(self@, template@, 0) matches Some(at) && self@[at] == op@,
                None => template_at(self@, template@, 0) is None,
            },
    {
        proof {
            use_type_invariant(self);
        }
        match find_template(&self.operations, template) {
            Some(at) => {
                assert(operation_views(self.operations@)[at as int]
                    == self.operations@[at as int]@);
                Some(&self.operations[at])
            },
            None => None,
        }
    }
}

fn find_template(operations: &Vec<Operation>, template: &[u8]) -> (at: Option<usize>)
    ensures
        match at {
            Some(i) => template_at(operation_views(operations@), template@, 0) == Some(i as int)
                && i < operations@.len(),
            None => template_at(operation_views(operations@), template@, 0) is None,
        },
{
    let ghost all = operation_views(operations@);
    let mut i: usize = 0;
    while i < operations.len()
        invariant
            i <= operations@.len(),
            all == operation_views(operations@),
            template_at(all, template@, 0) == template_at(all, template@, i as int),
        decreases operations@.len() - i,
    {
        assert(all[i as int] == operations@[i as int]@);
        if bytes_eq(operations[i].template.as_slice(), template) {
            return Some(i);
        }
        i += 1;
    }
    None
}

/// In a registry, at most one operation handles a template: the one that is
/// found is the only one.
pub proof fn lemma_template_is_unique(operations: Seq<OperationView>, template: Seq<u8>, at: int)
    requires
        distinct_templates(operations),
        0 <= at < operations.len(),
        operations[at].template == template,
    ensures
        template_at(operations, template, 0) == Some(at),
{
    lemma_template_at(operations, template, 0);
}

} // verus!
