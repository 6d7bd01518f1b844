//! The policy file: one entry for each field of a policy, each exactly once.
//!
//! A writer puts the entries of [`SandboxPolicy::fields`] in their order. A
//! reader hands each entry that it meets to a [`PolicyBuilder`], in whatever
//! order they come, and leaves out those whose names it does not know.

use vstd::prelude::*;

use crate::command_line::texts;
use crate::policy::{copied, PolicyView, SandboxPolicy};
use crate::text::same_text;

verus! {

/// The fields of a policy.
#[derive(Clone, Copy, Debug, PartialEq, Eq, Structural)]
pub enum PolicyField {
    Program,
    Args,
    WritableDirectories,
    AllowFsWrite,
    AllowNetwork,
}

/// The name of a field in the file.
pub open spec fn field_name(field: PolicyField) -> Seq<char> {
    match field {
        PolicyField::Program => "program"@,
        PolicyField::Args => "args"@,
        PolicyField::WritableDirectories => "writable_directories"@,
        PolicyField::AllowFsWrite => "allow_fs_write"@,
        PolicyField::AllowNetwork => "allow_network"@,
    }
}

/// The fields, in the order in which they are written.
pub open spec fn field_order() -> Seq<PolicyField> {
    seq![
        PolicyField::Program,
        PolicyField::Args,
        PolicyField::WritableDirectories,
        PolicyField::AllowFsWrite,
        PolicyField::AllowNetwork,
    ]
}

impl PolicyField {
    /// The field's name in the file.
    pub fn name(self) -> (r: &'static str)
        ensures
            r@ == field_name(self),
    {
        match self {
            PolicyField::Program => "program",
            PolicyField::Args => "args",
            PolicyField::WritableDirectories => "writable_directories",
            PolicyField::AllowFsWrite => "allow_fs_write",
            PolicyField::AllowNetwork => "allow_network",
        }
    }

    /// The field of that name, if there is one.
    pub fn named(name: &str) -> (r: Option<PolicyField>)
        ensures
            forall|field: PolicyField| r == Some(field) <==> #[trigger] field_name(field) == name@,
    {
        let r = if same_text(name, "program") {
            Some(PolicyField::Program)
        } else if same_text(name, "args") {
            Some(PolicyField::Args)
        } else if same_text(name, "writable_directories") {
            Some(PolicyField::WritableDirectories)
        } else if same_text(name, "allow_fs_write") {
            Some(PolicyField::AllowFsWrite)
        } else if same_text(name, "allow_network") {
            Some(PolicyField::AllowNetwork)
        } else {
            None
        };
        proof {
            assert forall|field: PolicyField| r == Some(field) <==> #[trigger] field_name(field) == name@ by {
                if let Some(found) = r {
                    law_field_names_differ(found, field);
                }
            }
        }
        r
    }
}

/// No two fields share a name.
pub proof fn law_field_names_differ(a: PolicyField, b: PolicyField)
    ensures
        field_name(a) == field_name(b) ==> a == b,
{
    reveal_strlit("program");
    reveal_strlit("args");
    reveal_strlit("writable_directories");
    reveal_strlit("allow_fs_write");
    reveal_strlit("allow_network");
    assert("program"@.len() == 7);
    assert("args"@.len() == 4);
    assert("writable_directories"@.len() == 20);
    assert("allow_fs_write"@.len() == 14);
    assert("allow_network"@.len() == 13);
}

/// One entry of the file.
#[derive(Debug)]
pub enum FieldValue {
    Program(String),
    Args(Vec<String>),
    WritableDirectories(Vec<String>),
    AllowFsWrite(bool),
    AllowNetwork(bool),
}

/// What an entry says.
#[verifier::ext_equal]
pub enum FieldView {
    Program(Seq<char>),
    Args(Seq<Seq<char>>),
    WritableDirectories(Seq<Seq<char>>),
    AllowFsWrite(bool),
    AllowNetwork(bool),
}

impl View for FieldValue {
    type V = FieldView;

    open spec fn view(&self) -> FieldView {
        match self {
            FieldValue::Program(v) => FieldView::Program(v@),
            FieldValue::Args(v) => FieldView::Args(texts(v@)),
            FieldValue::WritableDirectories(v) => FieldView::WritableDirectories(texts(v@)),
            FieldValue::AllowFsWrite(v) => FieldView::AllowFsWrite(*v),
            FieldValue::AllowNetwork(v) => FieldView::AllowNetwork(*v),
        }
    }
}

impl FieldView {
    /// The field that an entry is for.
    pub open spec fn field(self) -> PolicyField {
        match self {
            FieldView::Program(_) => PolicyField::Program,
            FieldView::Args(_) => PolicyField::Args,
            FieldView::WritableDirectories(_) => PolicyField::WritableDirectories,
            FieldView::AllowFsWrite(_) => PolicyField::AllowFsWrite,
            FieldView::AllowNetwork(_) => PolicyField::AllowNetwork,
        }
    }
}

impl PolicyView {
    /// The entry for one field.
    pub open spec fn entry(self, field: PolicyField) -> FieldView {
        match field {
            PolicyField::Program => FieldView::Program(self.program),
            PolicyField::Args => FieldView::Args(self.args),
            PolicyField::WritableDirectories => FieldView::WritableDirectories(self.writable_directories),
            PolicyField::AllowFsWrite => FieldView::AllowFsWrite(self.allow_fs_write),
            PolicyField::AllowNetwork => FieldView::AllowNetwork(self.allow_network),
        }
    }

    /// All entries, in the order in which they are written.
    pub open spec fn entries(self) -> Seq<FieldView> {
        field_order().map_values(|field: PolicyField| self.entry(field))
    }
}

/// The entries of a list.
pub open spec fn entry_views(list: Seq<FieldValue>) -> Seq<FieldView> {
    list.map_values(|v: FieldValue| v@)
}

impl SandboxPolicy {
    /// The entries of the policy's file, in their order.
    pub fn fields(&self) -> (r: Vec<FieldValue>)
        ensures
            entry_views(r@) == self@.entries(),
            r@.len() == 5,
            r@[0] matches FieldValue::Program(v) && v@ == self.program@,
            r@[1] matches FieldValue::Args(v) && v@.len() == self.args@.len() && (forall|i: int|
                0 <= i < v@.len() ==> (#[trigger] v@[i])@ == self.args@[i]@),
            r@[2] matches FieldValue::WritableDirectories(v) && v@.len() == self.writable_directories@.len() && (
            forall|i: int| 0 <= i < v@.len() ==> (#[trigger] v@[i])@ == self.writable_directories@[i]@),
            r@[3] matches FieldValue::AllowFsWrite(v) && v == self.allow_fs_write,
            r@[4] matches FieldValue::AllowNetwork(v) && v == self.allow_network,
    {
        let mut out: Vec<FieldValue> = Vec::new();
        out.push(FieldValue::Program(self.program.clone()));
        out.push(FieldValue::Args(copied(&self.args)));
        out.push(FieldValue::WritableDirectories(copied(&self.writable_directories)));
        out.push(FieldValue::AllowFsWrite(self.allow_fs_write));
        out.push(FieldValue::AllowNetwork(self.allow_network));
        assert(entry_views(out@) =~= self@.entries());
        out
    }
}

/// What is wrong with a policy file.
#[derive(Clone, Copy, Debug, PartialEq, Eq, Structural)]
pub enum PolicyError {
    /// A field has two entries.
    DuplicateField(PolicyField),
    /// A field has no entry.
    MissingField(PolicyField),
}

/// The entries that have been read: for each field its entry, if it came.
pub struct PolicyBuilder {
    program: Option<String>,
    args: Option<Vec<String>>,
    writable_directories: Option<Vec<String>>,
    allow_fs_write: Option<bool>,
    allow_network: Option<bool>,
}

impl View for PolicyBuilder {
    type V = Map<PolicyField, FieldView>;

    closed spec fn view(&self) -> Map<PolicyField, FieldView> {
        let m = Map::<PolicyField, FieldView>::empty();
        let m = match self.program {
            Some(v) => m.insert(PolicyField::Program, FieldView::Program(v@)),
            None => m,
        };
        let m = match self.args {
            Some(v) => m.insert(PolicyField::Args, FieldView::Args(texts(v@))),
            None => m,
        };
        let m = match self.writable_directories {
            Some(v) => m.insert(PolicyField::WritableDirectories, FieldView::WritableDirectories(texts(v@))),
            None => m,
        };
        let m = match self.allow_fs_write {
            Some(v) => m.insert(PolicyField::AllowFsWrite, FieldView::AllowFsWrite(v)),
            None => m,
        };
        match self.allow_network {
            Some(v) => m.insert(PolicyField::AllowNetwork, FieldView::AllowNetwork(v)),
            None => m,
        }
    }
}

/// The first field without an entry, in the order in which they are written.
pub open spec fn first_missing(read: Map<PolicyField, FieldView>) -> Option<PolicyField> {
    if !read.contains_key(PolicyField::Program) {
        Some(PolicyField::Program)
    } else if !read.contains_key(PolicyField::Args) {
        Some(PolicyField::Args)
    } else if !read.contains_key(PolicyField::WritableDirectories) {
        Some(PolicyField::WritableDirectories)
    } else if !read.contains_key(PolicyField::AllowFsWrite) {
        Some(PolicyField::AllowFsWrite)
    } else if !read.contains_key(PolicyField::AllowNetwork) {
        Some(PolicyField::AllowNetwork)
    } else {
        None
    }
}

/// The policy that the entries give.
pub open spec fn policy_of(read: Map<PolicyField, FieldView>) -> PolicyView {
    PolicyView {
        program: read[PolicyField::Program]->Program_0,
        args: read[PolicyField::Args]->Args_0,
        writable_directories: read[PolicyField::WritableDirectories]->WritableDirectories_0,
        allow_fs_write: read[PolicyField::AllowFsWrite]->AllowFsWrite_0,
        allow_network: read[PolicyField::AllowNetwork]->AllowNetwork_0,
    }
}

/// What comes of the entries that have been read.
pub open spec fn finished(read: Map<PolicyField, FieldView>) -> Result<PolicyView, PolicyError> {
    match first_missing(read) {
        Some(field) => Err(PolicyError::MissingField(field)),
        None => Ok(policy_of(read)),
    }
}

/// What a policy result says.
pub open spec fn result_view(r: Result<SandboxPolicy, PolicyError>) -> Result<PolicyView, PolicyError> {
    match r {
        Ok(p) => Ok(p@),
        Err(e) => Err(e),
    }
}

impl PolicyBuilder {
    /// A builder that has read nothing.
    pub fn new() -> (r: Self)
        ensures
            r@ == Map::<PolicyField, FieldView>::empty(),
    {
        PolicyBuilder {
            program: None,
            args: None,
            writable_directories: None,
            allow_fs_write: None,
            allow_network: None,
        }
    }

    /// Whether an entry for `field` may come: it is the first one.
    pub fn expect(&self, field: PolicyField) -> (r: Result<(), PolicyError>)
        ensures
            r == if self@.contains_key(field) {
                Err::<(), PolicyError>(PolicyError::DuplicateField(field))
            } else {
                Ok(())
            },
    {
        let present = match field {
            PolicyField::Program => self.program.is_some(),
            PolicyField::Args => self.args.is_some(),
            PolicyField::WritableDirectories => self.writable_directories.is_some(),
            PolicyField::AllowFsWrite => self.allow_fs_write.is_some(),
            PolicyField::AllowNetwork => self.allow_network.is_some(),
        };
        if present {
            Err(PolicyError::DuplicateField(field))
        } else {
            Ok(())
        }
    }

    /// Takes one entry. A second one for the same field is an error.
    pub fn put(&mut self, value: FieldValue) -> (r: Result<(), PolicyError>)
        ensures
            r == if old(self)@.contains_key(value@.field()) {
                Err::<(), PolicyError>(PolicyError::DuplicateField(value@.field()))
            } else {
                Ok(())
            },
            final(self)@ == if r is Ok {
                old(self)@.insert(value@.field(), value@)
            } else {
                old(self)@
            },
    {
        let field = match &value {
            FieldValue::Program(_) => PolicyField::Program,
            FieldValue::Args(_) => PolicyField::Args,
            FieldValue::WritableDirectories(_) => PolicyField::WritableDirectories,
            FieldValue::AllowFsWrite(_) => PolicyField::AllowFsWrite,
            FieldValue::AllowNetwork(_) => PolicyField::AllowNetwork,
        };
        let ghost before = self@;
        let ghost entry = value@;
        match self.expect(field) {
            Err(e) => {
                return Err(e);
            },
            Ok(_) => {},
        }
        match value {
            FieldValue::Program(v) => {
                self.program = Some(v);
            },
            FieldValue::Args(v) => {
                self.args = Some(v);
            },
            FieldValue::WritableDirectories(v) => {
                self.writable_directories = Some(v);
            },
            FieldValue::AllowFsWrite(v) => {
                self.allow_fs_write = Some(v);
            },
            FieldValue::AllowNetwork(v) => {
                self.allow_network = Some(v);
            },
        }
        assert(self@ =~= before.insert(entry.field(), entry));
        Ok(())
    }

    /// The policy, once the file has ended.
    pub fn finish(self) -> (r: Result<SandboxPolicy, PolicyError>)
        ensures
            result_view(r) == finished(self@),
            match r {
                Ok(policy) => finished(self@) == Ok::<_, PolicyError>(policy@),
                Err(error) => finished(self@) == Err::<PolicyView, _>(error),
            },
    {
        let program = match self.program {
            Some(v) => v,
            None => {
                return Err(PolicyError::MissingField(PolicyField::Program));
            },
        };
        let args = match self.args {
            Some(v) => v,
            None => {
                return Err(PolicyError::MissingField(PolicyField::Args));
            },
        };
        let writable_directories = match self.writable_directories {
            Some(v) => v,
            None => {
                return Err(PolicyError::MissingField(PolicyField::WritableDirectories));
            },
        };
        let allow_fs_write = match self.allow_fs_write {
            Some(v) => v,
            None => {
                return Err(PolicyError::MissingField(PolicyField::AllowFsWrite));
            },
        };
        let allow_network = match self.allow_network {
            Some(v) => v,
            None => {
                return Err(PolicyError::MissingField(PolicyField::AllowNetwork));
            },
        };
        Ok(SandboxPolicy { program, args, writable_directories, allow_fs_write, allow_network })
    }
}

/// What is read from a file's entries, or the first error.
pub open spec fn read_entries(entries: Seq<FieldView>) -> Result<Map<PolicyField, FieldView>, PolicyError>
    decreases entries.len(),
{
    if entries.len() == 0 {
        Ok(Map::empty())
    } else {
        match read_entries(entries.drop_last()) {
            Err(e) => Err(e),
            Ok(read) => if read.contains_key(entries.last().field()) {
                Err(PolicyError::DuplicateField(entries.last().field()))
            } else {
                Ok(read.insert(entries.last().field(), entries.last()))
            },
        }
    }
}

/// The policy that a file's entries give, or the first error.
pub open spec fn read_back(entries: Seq<FieldView>) -> Result<PolicyView, PolicyError> {
    match read_entries(entries) {
        Ok(read) => finished(read),
        Err(e) => Err(e),
    }
}

/// Reads a policy from the entries of its file.
pub fn read_policy(entries: Vec<FieldValue>) -> (r: Result<SandboxPolicy, PolicyError>)
    ensures
        result_view(r) == read_back(entry_views(entries@)),
        match r {
            Ok(policy) => read_back(entry_views(entries@)) == Ok::<_, PolicyError>(policy@),
            Err(error) => read_back(entry_views(entries@)) == Err::<PolicyView, _>(error),
        },
{
    let mut builder = PolicyBuilder::new();
    let ghost all = entry_views(entries@);
    for value in it: entries
        invariant
            all == entry_views(entries@),
            it.seq() == entries@,
            read_entries(all.take(it.index() as int)) == Ok::<_, PolicyError>(builder@),
    {
        let ghost i = it.index() as int;
        let ghost entry = value@;
        assert(all.take(i + 1).drop_last() =~= all.take(i));
        assert(all.take(i + 1).last() == entry);
        match builder.put(value) {
            Err(e) => {
                proof {
                    lemma_read_entries_error(all, i + 1);
                }
                return Err(e);
            },
            Ok(_) => {},
        }
    }
    assert(all.take(all.len() as int) =~= all);
    builder.finish()
}

proof fn lemma_read_entries_error(entries: Seq<FieldView>, n: int)
    requires
        0 <= n <= entries.len(),
        read_entries(entries.take(n)) is Err,
    ensures
        read_entries(entries) == read_entries(entries.take(n)),
    decreases entries.len() - n,
{
    if n == entries.len() {
        assert(entries.take(n) =~= entries);
    } else {
        assert(entries.take(n + 1).drop_last() =~= entries.take(n));
        lemma_read_entries_error(entries, n + 1);
    }
}

/// What was written is read back: the entries of a policy give that policy.
pub proof fn law_policy_is_read_back(policy: PolicyView)
    ensures
        read_back(policy.entries()) == Ok::<PolicyView, PolicyError>(policy),
{
    lemma_entries_read(policy, 5);
    assert(policy.entries().take(5) =~= policy.entries());
    let read = read_entries(policy.entries())->Ok_0;
    assert(field_order()[0] == PolicyField::Program);
    assert(field_order()[1] == PolicyField::Args);
    assert(field_order()[2] == PolicyField::WritableDirectories);
    assert(field_order()[3] == PolicyField::AllowFsWrite);
    assert(field_order()[4] == PolicyField::AllowNetwork);
    assert(policy_of(read) =~= policy);
}

proof fn lemma_entries_read(policy: PolicyView, n: int)
    requires
        0 <= n <= 5,
    ensures
        read_entries(policy.entries().take(n)) is Ok,
        forall|field: PolicyField|
            read_entries(policy.entries().take(n))->Ok_0.contains_key(field) <==> exists|i: int|
                0 <= i < n && #[trigger] field_order()[i] == field,
        forall|i: int|
            0 <= i < n ==> read_entries(policy.entries().take(n))->Ok_0[#[trigger] field_order()[i]] == policy.entry(
                field_order()[i],
            ),
    decreases n,
{
    let all = policy.entries();
    if n > 0 {
        lemma_entries_read(policy, n - 1);
        assert(all.take(n).drop_last() =~= all.take(n - 1));
        let last = field_order()[n - 1];
        assert(all.take(n).last() == policy.entry(last));
        assert(policy.entry(last).field() == last);
        assert(forall|i: int, j: int| 0 <= i < j < 5 ==> field_order()[i] != field_order()[j]);
        let before = read_entries(all.take(n - 1))->Ok_0;
        assert(!before.contains_key(last));
    }
}

/// Whether no field has two entries.
pub open spec fn no_field_twice(entries: Seq<FieldView>) -> bool {
    forall|i: int, j: int|
        0 <= i < j < entries.len() ==> (#[trigger] entries[i]).field() != (#[trigger] entries[j]).field()
}

/// Whether every field has an entry.
pub open spec fn every_field(entries: Seq<FieldView>) -> bool {
    forall|field: PolicyField| #[trigger] has_entry(entries, field)
}

/// Whether a field has an entry.
pub open spec fn has_entry(entries: Seq<FieldView>, field: PolicyField) -> bool {
    exists|i: int| 0 <= i < entries.len() && (#[trigger] entries[i]).field() == field
}

proof fn lemma_read_entries(entries: Seq<FieldView>)
    ensures
        read_entries(entries) is Ok <==> no_field_twice(entries),
        read_entries(entries) matches Ok(read) ==> {
            &&& forall|field: PolicyField| read.contains_key(field) <==> #[trigger] has_entry(entries, field)
            &&& forall|i: int| 0 <= i < entries.len() ==> read[(#[trigger] entries[i]).field()] == entries[i]
        },
    decreases entries.len(),
{
    if entries.len() > 0 {
        let front = entries.drop_last();
        let last = entries.last();
        lemma_read_entries(front);
        assert(forall|i: int| 0 <= i < front.len() ==> front[i] == entries[i]);
        assert forall|field: PolicyField| has_entry(entries, field) <==> has_entry(front, field) || field
            == last.field() by {
            if has_entry(front, field) {
                let i = choose|i: int| 0 <= i < front.len() && (#[trigger] front[i]).field() == field;
                assert(entries[i].field() == field);
            }
            if field == last.field() {
                assert(entries[entries.len() - 1].field() == field);
            }
            if has_entry(entries, field) && field != last.field() {
                let i = choose|i: int| 0 <= i < entries.len() && (#[trigger] entries[i]).field() == field;
                assert(front[i].field() == field);
            }
        }
        if no_field_twice(entries) {
            assert(no_field_twice(front));
            if has_entry(front, last.field()) {
                let i = choose|i: int| 0 <= i < front.len() && (#[trigger] front[i]).field() == last.field();
                assert(entries[i].field() == entries[entries.len() - 1].field());
            }
        }
        if read_entries(entries) is Ok {
            assert(!has_entry(front, last.field()));
            assert forall|i: int, j: int| 0 <= i < j < entries.len() implies (#[trigger] entries[i]).field() != (
            #[trigger] entries[j]).field() by {
                assert(front[i] == entries[i]);
                if j < front.len() {
                    assert(front[j] == entries[j]);
                }
            }
        }
    }
}

/// A file is accepted exactly when every field has one entry, in any order,
/// and the policy then has what the entries say.
pub proof fn law_file_needs_each_field_once(entries: Seq<FieldView>)
    ensures
        read_back(entries) is Ok <==> no_field_twice(entries) && every_field(entries),
        read_back(entries) matches Ok(policy) ==> forall|i: int|
            0 <= i < entries.len() ==> #[trigger] entries[i] == policy.entry(entries[i].field()),
{
    lemma_read_entries(entries);
    if let Ok(read) = read_entries(entries) {
        assert(has_entry(entries, PolicyField::Program) == read.contains_key(PolicyField::Program));
        assert(has_entry(entries, PolicyField::Args) == read.contains_key(PolicyField::Args));
        assert(has_entry(entries, PolicyField::WritableDirectories) == read.contains_key(
            PolicyField::WritableDirectories,
        ));
        assert(has_entry(entries, PolicyField::AllowFsWrite) == read.contains_key(PolicyField::AllowFsWrite));
        assert(has_entry(entries, PolicyField::AllowNetwork) == read.contains_key(PolicyField::AllowNetwork));
        if first_missing(read) is None {
            assert forall|field: PolicyField| #[trigger] has_entry(entries, field) by {
                match field {
                    PolicyField::Program => {},
                    PolicyField::Args => {},
                    PolicyField::WritableDirectories => {},
                    PolicyField::AllowFsWrite => {},
                    PolicyField::AllowNetwork => {},
                }
            }
        }
    }
}

/// The names of the fields in the file, and the order in which the entries of a
/// policy are written: each entry has what the policy says of its field.
pub proof fn law_entries_have_the_policy(policy: PolicyView)
    ensures
        field_name(PolicyField::Program) == "program"@,
        field_name(PolicyField::Args) == "args"@,
        field_name(PolicyField::WritableDirectories) == "writable_directories"@,
        field_name(PolicyField::AllowFsWrite) == "allow_fs_write"@,
        field_name(PolicyField::AllowNetwork) == "allow_network"@,
        policy.entries() == seq![
            FieldView::Program(policy.program),
            FieldView::Args(policy.args),
            FieldView::WritableDirectories(policy.writable_directories),
            FieldView::AllowFsWrite(policy.allow_fs_write),
            FieldView::AllowNetwork(policy.allow_network),
        ],
{
}

/// What is said of an entry is all that it holds, each text at its place.
pub proof fn law_entry_says_what_it_holds(value: FieldValue)
    ensures
        match value {
            FieldValue::Program(v) => value@ == FieldView::Program(v@) && value@.field() is Program,
            FieldValue::Args(v) => value@.field() is Args && (value@ matches FieldView::Args(said) && said.len()
                == v@.len() && (forall|i: int| 0 <= i < said.len() ==> #[trigger] said[i] == v@[i]@)),
            FieldValue::WritableDirectories(v) => value@.field() is WritableDirectories && (
            value@ matches FieldView::WritableDirectories(said) && said.len() == v@.len() && (forall|i: int|
                0 <= i < said.len() ==> #[trigger] said[i] == v@[i]@)),
            FieldValue::AllowFsWrite(v) => value@ == FieldView::AllowFsWrite(v) && value@.field() is AllowFsWrite,
            FieldValue::AllowNetwork(v) => value@ == FieldView::AllowNetwork(v) && value@.field() is AllowNetwork,
        },
{
}

/// The entries that are read are all of the list, each at its place.
pub proof fn law_all_entries_are_read(list: Seq<FieldValue>)
    ensures
        entry_views(list).len() == list.len(),
        forall|i: int| 0 <= i < list.len() ==> #[trigger] entry_views(list)[i] == list[i]@,
{
}

/// A policy that is read has exactly what the entries of the file say, whatever
/// their order.
pub proof fn law_policy_has_the_entries(entries: Seq<FieldView>, i: int)
    requires
        0 <= i < entries.len(),
    ensures
        read_back(entries) matches Ok(policy) ==> match entries[i] {
            FieldView::Program(v) => policy.program == v,
            FieldView::Args(v) => policy.args == v,
            FieldView::WritableDirectories(v) => policy.writable_directories == v,
            FieldView::AllowFsWrite(v) => policy.allow_fs_write == v,
            FieldView::AllowNetwork(v) => policy.allow_network == v,
        },
{
    lemma_read_entries(entries);
    if let Ok(read) = read_entries(entries) {
        assert(read[entries[i].field()] == entries[i]);
    }
}

proof fn lemma_duplicate_is_first(entries: Seq<FieldView>)
    ensures
        read_entries(entries) matches Err(error) ==> {
            &&& error matches PolicyError::DuplicateField(field)
            &&& exists|j: int|
                0 <= j < entries.len() && (#[trigger] entries[j]).field() == field && no_field_twice(entries.take(j))
                    && has_entry(entries.take(j), field)
        },
    decreases entries.len(),
{
    if entries.len() > 0 {
        let front = entries.drop_last();
        let last = entries.len() - 1;
        lemma_duplicate_is_first(front);
        lemma_read_entries(front);
        assert(entries.take(last) =~= front);
        if let Err(PolicyError::DuplicateField(field)) = read_entries(front) {
            let j = choose|j: int|
                0 <= j < front.len() && (#[trigger] front[j]).field() == field && no_field_twice(front.take(j))
                    && has_entry(front.take(j), field);
            assert(entries.take(j) =~= front.take(j));
            assert(entries[j].field() == field);
        } else {
            assert(entries[last] == entries.last());
        }
    }
}

/// The error of a file that is not accepted is the first one: an entry for a
/// field that has one before it, where no entry before that is such; or, where
/// there is none, a field without an entry, where all fields that are written
/// before it have theirs.
pub proof fn law_first_error_is_told(entries: Seq<FieldView>)
    ensures
        read_back(entries) matches Err(error) ==> match error {
            PolicyError::DuplicateField(field) => exists|j: int|
                0 <= j < entries.len() && (#[trigger] entries[j]).field() == field && no_field_twice(entries.take(j))
                    && has_entry(entries.take(j), field),
            PolicyError::MissingField(field) => no_field_twice(entries) && !has_entry(entries, field) && match field {
                PolicyField::Program => true,
                PolicyField::Args => has_entry(entries, PolicyField::Program),
                PolicyField::WritableDirectories => has_entry(entries, PolicyField::Program) && has_entry(
                    entries,
                    PolicyField::Args,
                ),
                PolicyField::AllowFsWrite => has_entry(entries, PolicyField::Program) && has_entry(
                    entries,
                    PolicyField::Args,
                ) && has_entry(entries, PolicyField::WritableDirectories),
                PolicyField::AllowNetwork => has_entry(entries, PolicyField::Program) && has_entry(
                    entries,
                    PolicyField::Args,
                ) && has_entry(entries, PolicyField::WritableDirectories) && has_entry(
                    entries,
                    PolicyField::AllowFsWrite,
                ),
            },
        },
{
    lemma_duplicate_is_first(entries);
    lemma_read_entries(entries);
    if let Ok(read) = read_entries(entries) {
        assert(read.contains_key(PolicyField::Program) == has_entry(entries, PolicyField::Program));
        assert(read.contains_key(PolicyField::Args) == has_entry(entries, PolicyField::Args));
        assert(read.contains_key(PolicyField::WritableDirectories) == has_entry(
            entries,
            PolicyField::WritableDirectories,
        ));
        assert(read.contains_key(PolicyField::AllowFsWrite) == has_entry(entries, PolicyField::AllowFsWrite));
        assert(read.contains_key(PolicyField::AllowNetwork) == has_entry(entries, PolicyField::AllowNetwork));
    }
}

} // verus!
