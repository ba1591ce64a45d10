//! The workspace index: what each file declares, and the lookups that the
//! resolver makes on it.

use vstd::prelude::*;
use crate::ast::{InferredType, TypeModel};
use crate::index_laws::lemma_upsert_keeps_invariant;
use crate::text::{begins_with_owner, has_owner, str_eq};

verus! {

/// A place in a document: zero-based line and char column.
#[derive(Debug, Clone, Copy, PartialEq, Eq, Structural)]
pub struct Position {
    pub line: u32,
    pub character: u32,
}

/// A span between two positions, the end exclusive.
#[derive(Debug, Clone, Copy, PartialEq, Eq, Structural)]
pub struct Range {
    pub start: Position,
    pub end: Position,
}

/// A span in a document.
#[derive(Debug, Clone, PartialEq, Eq)]
pub struct Location {
    pub uri: String,
    pub range: Range,
}

/// What a location says once its URI is read as chars.
pub struct LocationModel {
    pub uri: Seq<char>,
    pub range: Range,
}

impl View for Location {
    type V = LocationModel;

    open spec fn view(&self) -> LocationModel {
        LocationModel { uri: self.uri@, range: self.range }
    }
}

impl DeepView for Location {
    type V = LocationModel;

    open spec fn deep_view(&self) -> LocationModel {
        LocationModel { uri: self.uri@, range: self.range }
    }
}

/// The package, imports and class names of one indexed file.
#[derive(Debug, Clone)]
pub struct FileInfo {
    pub package_name: Option<String>,
    pub imports: Vec<String>,
    pub defined_classes: Vec<String>,
}

/// Model of a [`FileInfo`].
pub struct FileInfoModel {
    pub package_name: Option<Seq<char>>,
    pub imports: Seq<Seq<char>>,
    pub defined_classes: Seq<Seq<char>>,
}

impl DeepView for FileInfo {
    type V = FileInfoModel;

    open spec fn deep_view(&self) -> FileInfoModel {
        FileInfoModel {
            package_name: self.package_name.deep_view(),
            imports: self.imports.deep_view(),
            defined_classes: self.defined_classes.deep_view(),
        }
    }
}

/// Where a class is declared.
#[derive(Debug, Clone)]
pub struct ClassLocation {
    pub fqcn: String,
    pub uri: String,
    pub range: Range,
}

/// Model of a [`ClassLocation`].
pub struct ClassModel {
    pub fqcn: Seq<char>,
    pub uri: Seq<char>,
    pub range: Range,
}

impl DeepView for ClassLocation {
    type V = ClassModel;

    open spec fn deep_view(&self) -> ClassModel {
        ClassModel { fqcn: self.fqcn@, uri: self.uri@, range: self.range }
    }
}

/// Where a member is declared, with what overload resolution reads of it.
#[derive(Debug, Clone)]
pub struct MemberLocation {
    pub fqmn: String,
    pub uri: String,
    pub range: Range,
    pub is_field: bool,
    pub is_varargs: bool,
    pub param_count: usize,
    pub param_types: Vec<String>,
    pub field_type: Option<InferredType>,
}

/// Model of a [`MemberLocation`].
pub struct MemberModel {
    pub fqmn: Seq<char>,
    pub uri: Seq<char>,
    pub range: Range,
    pub is_field: bool,
    pub is_varargs: bool,
    pub param_count: nat,
    pub param_types: Seq<Seq<char>>,
    pub field_type: Option<TypeModel>,
}

/// Model of an optional type.
pub open spec fn opt_type_model(t: Option<InferredType>) -> Option<TypeModel> {
    match t {
        Some(x) => Some(x@),
        None => None,
    }
}

impl DeepView for MemberLocation {
    type V = MemberModel;

    open spec fn deep_view(&self) -> MemberModel {
        MemberModel {
            fqmn: self.fqmn@,
            uri: self.uri@,
            range: self.range,
            is_field: self.is_field,
            is_varargs: self.is_varargs,
            param_count: self.param_count as nat,
            param_types: self.param_types.deep_view(),
            field_type: opt_type_model(self.field_type),
        }
    }
}

/// A class, interface, enum, record or annotation declaration.
#[derive(Debug, Clone, PartialEq, Eq)]
pub struct IndexedClass {
    pub short_name: String,
    pub fqcn: String,
    pub uri: String,
    pub range: Range,
}

/// Model of an [`IndexedClass`].
pub struct IndexedClassModel {
    pub short_name: Seq<char>,
    pub fqcn: Seq<char>,
    pub uri: Seq<char>,
    pub range: Range,
}

impl DeepView for IndexedClass {
    type V = IndexedClassModel;

    open spec fn deep_view(&self) -> IndexedClassModel {
        IndexedClassModel {
            short_name: self.short_name@,
            fqcn: self.fqcn@,
            uri: self.uri@,
            range: self.range,
        }
    }
}

/// A method or field declared directly in a class body.
#[derive(Debug, Clone, PartialEq)]
pub struct IndexedMember {
    pub name: String,
    pub fqmn: String,
    pub uri: String,
    pub range: Range,
    pub is_field: bool,
    pub is_varargs: bool,
    pub param_count: usize,
    pub param_types: Vec<String>,
    pub field_type: Option<InferredType>,
}

/// Model of an [`IndexedMember`].
pub struct IndexedMemberModel {
    pub name: Seq<char>,
    pub fqmn: Seq<char>,
    pub uri: Seq<char>,
    pub range: Range,
    pub is_field: bool,
    pub is_varargs: bool,
    pub param_count: nat,
    pub param_types: Seq<Seq<char>>,
    pub field_type: Option<TypeModel>,
}

impl DeepView for IndexedMember {
    type V = IndexedMemberModel;

    open spec fn deep_view(&self) -> IndexedMemberModel {
        IndexedMemberModel {
            name: self.name@,
            fqmn: self.fqmn@,
            uri: self.uri@,
            range: self.range,
            is_field: self.is_field,
            is_varargs: self.is_varargs,
            param_count: self.param_count as nat,
            param_types: self.param_types.deep_view(),
            field_type: opt_type_model(self.field_type),
        }
    }
}

/// All that the index holds of one file.
pub struct FileRecord {
    pub uri: String,
    pub package_name: Option<String>,
    pub imports: Vec<String>,
    pub classes: Vec<IndexedClass>,
    pub members: Vec<IndexedMember>,
}

/// Model of a [`FileRecord`].
pub struct FileModel {
    pub uri: Seq<char>,
    pub package_name: Option<Seq<char>>,
    pub imports: Seq<Seq<char>>,
    pub classes: Seq<IndexedClassModel>,
    pub members: Seq<IndexedMemberModel>,
}

impl DeepView for FileRecord {
    type V = FileModel;

    open spec fn deep_view(&self) -> FileModel {
        FileModel {
            uri: self.uri@,
            package_name: self.package_name.deep_view(),
            imports: self.imports.deep_view(),
            classes: self.classes.deep_view(),
            members: self.members.deep_view(),
        }
    }
}

/// A copy of `v`.
pub fn copy_strings(v: &Vec<String>) -> (r: Vec<String>)
    ensures
        r.deep_view() == v.deep_view(),
{
    let mut r: Vec<String> = Vec::new();
    let mut i: usize = 0;
    while i < v.len()
        invariant
            i <= v.len(),
            r.len() == i,
            forall|j: int| 0 <= j < i ==> r@[j]@ == v@[j]@,
        decreases v.len() - i,
    {
        r.push(v[i].clone());
        i += 1;
    }
    assert(r.deep_view() =~= v.deep_view());
    r
}

/// A copy of an optional text.
pub fn copy_opt_string(s: &Option<String>) -> (r: Option<String>)
    ensures
        r.deep_view() == s.deep_view(),
{
    match s {
        Some(x) => Some(x.clone()),
        None => None,
    }
}

impl InferredType {
    /// A copy of this type.
    pub fn duplicate(&self) -> (r: InferredType)
        ensures
            r@ == self@,
    {
        match self {
            InferredType::Int => InferredType::Int,
            InferredType::Long => InferredType::Long,
            InferredType::Boolean => InferredType::Boolean,
            InferredType::Char => InferredType::Char,
            InferredType::String => InferredType::String,
            InferredType::Float => InferredType::Float,
            InferredType::Double => InferredType::Double,
            InferredType::Class(name) => InferredType::Class(name.clone()),
            InferredType::Unknown => InferredType::Unknown,
        }
    }
}

/// A copy of an optional type.
pub fn copy_opt_type(t: &Option<InferredType>) -> (r: Option<InferredType>)
    ensures
        opt_type_model(r) == opt_type_model(*t),
{
    match t {
        Some(x) => Some(x.duplicate()),
        None => None,
    }
}

impl ClassLocation {
    /// A copy of this location.
    pub fn duplicate(&self) -> (r: ClassLocation)
        ensures
            r.deep_view() == self.deep_view(),
    {
        ClassLocation { fqcn: self.fqcn.clone(), uri: self.uri.clone(), range: self.range }
    }

    /// The location alone, without the class name.
    pub fn location(&self) -> (r: Location)
        ensures
            r@ == (LocationModel { uri: self.uri@, range: self.range }),
    {
        Location { uri: self.uri.clone(), range: self.range }
    }
}

impl MemberLocation {
    /// The location alone.
    pub fn location(&self) -> (r: Location)
        ensures
            r@ == (LocationModel { uri: self.uri@, range: self.range }),
    {
        Location { uri: self.uri.clone(), range: self.range }
    }
}

/// The URIs of the files, in the order in which the index holds them.
pub open spec fn uris_of(files: Seq<FileModel>) -> Seq<Seq<char>> {
    files.map_values(|f: FileModel| f.uri)
}

/// Where the record of `uri` stands, if the index has one.
pub open spec fn file_position(files: Seq<FileModel>, uri: Seq<char>) -> Option<int> {
    uris_of(files).index_of_first(uri)
}

/// No URI has two records.
pub open spec fn distinct_uris(files: Seq<FileModel>) -> bool {
    forall|i: int, j: int| 0 <= i < j < files.len() ==> files[i].uri != files[j].uri
}

/// Every class and member of the record is filed under the record's URI.
pub open spec fn filed_under_uri(f: FileModel) -> bool {
    &&& forall|k: int| 0 <= k < f.classes.len() ==> (#[trigger] f.classes[k]).uri == f.uri
    &&& forall|k: int| 0 <= k < f.members.len() ==> (#[trigger] f.members[k]).uri == f.uri
}

/// The index invariant: one record per URI, each holding only its own file's
/// declarations.
pub open spec fn index_wf(files: Seq<FileModel>) -> bool {
    &&& distinct_uris(files)
    &&& forall|i: int| 0 <= i < files.len() ==> filed_under_uri(#[trigger] files[i])
}

/// The index after `rec` took the place of the record with its URI, or was
/// added where there was none.
pub open spec fn upserted(files: Seq<FileModel>, rec: FileModel) -> Seq<FileModel> {
    match file_position(files, rec.uri) {
        Some(k) => files.update(k, rec),
        None => files.push(rec),
    }
}

/// The facts of one record.
pub open spec fn facts_of(f: FileModel) -> FileInfoModel {
    FileInfoModel {
        package_name: f.package_name,
        imports: f.imports,
        defined_classes: f.classes.map_values(|c: IndexedClassModel| c.short_name),
    }
}

/// The facts of the file `uri`, if it is indexed.
pub open spec fn file_facts(files: Seq<FileModel>, uri: Seq<char>) -> Option<FileInfoModel> {
    match file_position(files, uri) {
        Some(k) => Some(facts_of(files[k])),
        None => None,
    }
}

/// The location that the index hands out for a class.
pub open spec fn class_model_of(c: IndexedClassModel) -> ClassModel {
    ClassModel { fqcn: c.fqcn, uri: c.uri, range: c.range }
}

/// The location that the index hands out for a member.
pub open spec fn member_model_of(m: IndexedMemberModel) -> MemberModel {
    MemberModel {
        fqmn: m.fqmn,
        uri: m.uri,
        range: m.range,
        is_field: m.is_field,
        is_varargs: m.is_varargs,
        param_count: m.param_count,
        param_types: m.param_types,
        field_type: m.field_type,
    }
}

/// The classes among `classes` whose short name is `name`, in order.
pub open spec fn classes_named(classes: Seq<IndexedClassModel>, name: Seq<char>) -> Seq<
    ClassModel,
>
    decreases classes.len(),
{
    if classes.len() == 0 {
        Seq::empty()
    } else {
        let rest = classes_named(classes.drop_last(), name);
        if classes.last().short_name == name {
            rest.push(class_model_of(classes.last()))
        } else {
            rest
        }
    }
}

/// All classes of the workspace whose short name is `name`: file by file,
/// and within a file in declaration order.
pub open spec fn classes_by_short_name(files: Seq<FileModel>, name: Seq<char>) -> Seq<ClassModel>
    decreases files.len(),
{
    if files.len() == 0 {
        Seq::empty()
    } else {
        classes_by_short_name(files.drop_last(), name) + classes_named(files.last().classes, name)
    }
}

/// The members among `members` whose name is `name`, in order.
pub open spec fn members_named(members: Seq<IndexedMemberModel>, name: Seq<char>) -> Seq<
    MemberModel,
>
    decreases members.len(),
{
    if members.len() == 0 {
        Seq::empty()
    } else {
        let rest = members_named(members.drop_last(), name);
        if members.last().name == name {
            rest.push(member_model_of(members.last()))
        } else {
            rest
        }
    }
}

/// All members of the workspace whose name is `name`.
pub open spec fn members_by_name(files: Seq<FileModel>, name: Seq<char>) -> Seq<MemberModel>
    decreases files.len(),
{
    if files.len() == 0 {
        Seq::empty()
    } else {
        members_by_name(files.drop_last(), name) + members_named(files.last().members, name)
    }
}

/// The members among `members` whose qualified name is `fqcn`, a dot, and
/// something more.
pub open spec fn members_owned(members: Seq<IndexedMemberModel>, fqcn: Seq<char>) -> Seq<
    MemberModel,
>
    decreases members.len(),
{
    if members.len() == 0 {
        Seq::empty()
    } else {
        let rest = members_owned(members.drop_last(), fqcn);
        if begins_with_owner(members.last().fqmn, fqcn) {
            rest.push(member_model_of(members.last()))
        } else {
            rest
        }
    }
}

/// All members of the workspace that the class `fqcn` declares.
pub open spec fn members_of_class(files: Seq<FileModel>, fqcn: Seq<char>) -> Seq<MemberModel>
    decreases files.len(),
{
    if files.len() == 0 {
        Seq::empty()
    } else {
        members_of_class(files.drop_last(), fqcn) + members_owned(files.last().members, fqcn)
    }
}

/// Puts `rec` in the place `place` of `files`, or after them where no place
/// is given.
fn put_record(files: &mut Vec<FileRecord>, place: Option<usize>, rec: FileRecord)
    requires
        match place {
            Some(k) => k < old(files).len(),
            None => true,
        },
    ensures
        final(files).deep_view() == (match place {
            Some(k) => old(files).deep_view().update(k as int, rec.deep_view()),
            None => old(files).deep_view().push(rec.deep_view()),
        }),
{
    match place {
        Some(k) => {
            files.set(k, rec);
            assert(files.deep_view() =~= old(files).deep_view().update(k as int, rec.deep_view()));
        },
        None => {
            files.push(rec);
            assert(files.deep_view() =~= old(files).deep_view().push(rec.deep_view()));
        },
    }
}

/// The workspace-wide index of declarations, one record per file, in the
/// order in which the files were first filed. Lookups walk the records in
/// that order, so that the same index gives the same answers.
pub struct GlobalIndex {
    files: Vec<FileRecord>,
}

impl DeepView for GlobalIndex {
    type V = Seq<FileModel>;

    closed spec fn deep_view(&self) -> Seq<FileModel> {
        self.files.deep_view()
    }
}

impl IndexedClass {
    /// The location that lookups hand out for this class.
    pub fn to_location(&self) -> (r: ClassLocation)
        ensures
            r.deep_view() == class_model_of(self.deep_view()),
    {
        ClassLocation { fqcn: self.fqcn.clone(), uri: self.uri.clone(), range: self.range }
    }
}

impl IndexedMember {
    /// The location that lookups hand out for this member.
    pub fn to_location(&self) -> (r: MemberLocation)
        ensures
            r.deep_view() == member_model_of(self.deep_view()),
    {
        MemberLocation {
            fqmn: self.fqmn.clone(),
            uri: self.uri.clone(),
            range: self.range,
            is_field: self.is_field,
            is_varargs: self.is_varargs,
            param_count: self.param_count,
            param_types: copy_strings(&self.param_types),
            field_type: copy_opt_type(&self.field_type),
        }
    }
}

impl GlobalIndex {
    /// Every index holds one record per URI, each of declarations filed
    /// under that URI.
    #[verifier::type_invariant]
    spec fn well_formed(self) -> bool {
        index_wf(self.files.deep_view())
    }

    /// An index without files.
    pub fn new() -> (r: GlobalIndex)
        ensures
            r.deep_view() == Seq::<FileModel>::empty(),
            index_wf(r.deep_view()),
    {
        let files: Vec<FileRecord> = Vec::new();
        assert(files.deep_view() =~= Seq::<FileModel>::empty());
        GlobalIndex { files }
    }

    /// What holds of every index: one record per URI, each of declarations
    /// filed under that URI.
    pub fn well_filed(&self)
        ensures
            index_wf(self.deep_view()),
    {
        proof {
            use_type_invariant(self);
        }
    }

    /// Where the record of `uri` stands.
    fn position(&self, uri: &str) -> (r: Option<usize>)
        ensures
            match r {
                Some(k) => file_position(self.deep_view(), uri@) == Some(k as int) && k
                    < self.files.len(),
                None => file_position(self.deep_view(), uri@) is None,
            },
    {
        let ghost uris = uris_of(self.deep_view());
        let mut i: usize = 0;
        while i < self.files.len()
            invariant
                i <= self.files.len(),
                uris == uris_of(self.deep_view()),
                uris.len() == self.files.len(),
                forall|j: int| 0 <= j < i ==> uris[j] != uri@,
            decreases self.files.len() - i,
        {
            if str_eq(self.files[i].uri.as_str(), uri) {
                proof {
                    assert(uris[i as int] == uri@);
                    assert(uris.contains(uri@));
                    uris.index_of_first_ensures(uri@);
                    let k = uris.index_of_first(uri@).unwrap();
                    assert(uris[k] == uri@);
                }
                return Some(i);
            }
            i += 1;
        }
        proof {
            uris.index_of_first_ensures(uri@);
        }
        None
    }

    /// Files `uri` under the given declarations, in place of whatever the
    /// index held of that URI. The declarations must carry the URI they
    /// are filed under.
    pub fn upsert_file(
        &mut self,
        uri: &str,
        package_name: Option<String>,
        imports: Vec<String>,
        classes: Vec<IndexedClass>,
        members: Vec<IndexedMember>,
    )
        requires
            filed_under_uri(
                FileModel {
                    uri: uri@,
                    package_name: package_name.deep_view(),
                    imports: imports.deep_view(),
                    classes: classes.deep_view(),
                    members: members.deep_view(),
                },
            ),
        ensures
            final(self).deep_view() == upserted(
                old(self).deep_view(),
                FileModel {
                    uri: uri@,
                    package_name: package_name.deep_view(),
                    imports: imports.deep_view(),
                    classes: classes.deep_view(),
                    members: members.deep_view(),
                },
            ),
            index_wf(final(self).deep_view()),
    {
        let rec = FileRecord { uri: uri.to_owned(), package_name, imports, classes, members };
        let place = self.position(uri);
        proof {
            use_type_invariant(&*self);
            lemma_upsert_keeps_invariant(self.files.deep_view(), rec.deep_view());
        }
        let mut files: Vec<FileRecord> = Vec::new();
        assert(files.deep_view() =~= Seq::<FileModel>::empty());
        std::mem::swap(&mut self.files, &mut files);
        put_record(&mut files, place, rec);
        std::mem::swap(&mut self.files, &mut files);
    }

    /// The package, imports and class names of `uri`.
    pub fn file_info(&self, uri: &str) -> (r: Option<FileInfo>)
        ensures
            r.deep_view() == file_facts(self.deep_view(), uri@),
    {
        match self.position(uri) {
            Some(k) => {
                let f = &self.files[k];
                let mut names: Vec<String> = Vec::new();
                let mut i: usize = 0;
                while i < f.classes.len()
                    invariant
                        i <= f.classes.len(),
                        names.len() == i,
                        forall|j: int| 0 <= j < i ==> names@[j]@ == f.classes@[j].short_name@,
                    decreases f.classes.len() - i,
                {
                    names.push(f.classes[i].short_name.clone());
                    i += 1;
                }
                let info = FileInfo {
                    package_name: copy_opt_string(&f.package_name),
                    imports: copy_strings(&f.imports),
                    defined_classes: names,
                };
                assert(info.defined_classes.deep_view() =~= facts_of(
                    f.deep_view(),
                ).defined_classes);
                Some(info)
            },
            None => None,
        }
    }

    /// Every class of the workspace whose short name is `short_name`.
    pub fn classes_by_short_name(&self, short_name: &str) -> (r: Vec<ClassLocation>)
        ensures
            r.deep_view() == classes_by_short_name(self.deep_view(), short_name@),
    {
        let mut out: Vec<ClassLocation> = Vec::new();
        let ghost files = self.deep_view();
        let mut i: usize = 0;
        assert(files.take(0) =~= Seq::<FileModel>::empty());
        assert(out.deep_view() =~= Seq::<ClassModel>::empty());
        while i < self.files.len()
            invariant
                i <= self.files.len(),
                files == self.deep_view(),
                out.deep_view() == classes_by_short_name(files.take(i as int), short_name@),
            decreases self.files.len() - i,
        {
            let f = &self.files[i];
            let ghost base = out.deep_view();
            let ghost cls = f.classes.deep_view();
            let mut j: usize = 0;
            assert(cls.take(0) =~= Seq::<IndexedClassModel>::empty());
            assert(base + Seq::<ClassModel>::empty() =~= base);
            while j < f.classes.len()
                invariant
                    j <= f.classes.len(),
                    cls == f.classes.deep_view(),
                    out.deep_view() == base + classes_named(cls.take(j as int), short_name@),
                decreases f.classes.len() - j,
            {
                let c = &f.classes[j];
                let ghost before = out.deep_view();
                assert(cls.take(j + 1).drop_last() =~= cls.take(j as int));
                assert(cls.take(j + 1).last() == c.deep_view());
                if str_eq(c.short_name.as_str(), short_name) {
                    out.push(c.to_location());
                    assert(out.deep_view() =~= before.push(class_model_of(c.deep_view())));
                    assert(out.deep_view() =~= base + classes_named(
                        cls.take(j + 1),
                        short_name@,
                    ));
                }
                j += 1;
            }
            assert(cls.take(f.classes.len() as int) =~= cls);
            assert(files.take(i + 1).drop_last() =~= files.take(i as int));
            assert(files.take(i + 1).last() == f.deep_view());
            i += 1;
        }
        assert(files.take(self.files.len() as int) =~= files);
        out
    }

    /// Every member of the workspace whose name is `name`.
    pub fn members_by_name(&self, name: &str) -> (r: Vec<MemberLocation>)
        ensures
            r.deep_view() == members_by_name(self.deep_view(), name@),
    {
        let mut out: Vec<MemberLocation> = Vec::new();
        let ghost files = self.deep_view();
        let mut i: usize = 0;
        assert(files.take(0) =~= Seq::<FileModel>::empty());
        assert(out.deep_view() =~= Seq::<MemberModel>::empty());
        while i < self.files.len()
            invariant
                i <= self.files.len(),
                files == self.deep_view(),
                out.deep_view() == members_by_name(files.take(i as int), name@),
            decreases self.files.len() - i,
        {
            let f = &self.files[i];
            let ghost base = out.deep_view();
            let ghost mem = f.members.deep_view();
            let mut j: usize = 0;
            assert(mem.take(0) =~= Seq::<IndexedMemberModel>::empty());
            assert(base + Seq::<MemberModel>::empty() =~= base);
            while j < f.members.len()
                invariant
                    j <= f.members.len(),
                    mem == f.members.deep_view(),
                    out.deep_view() == base + members_named(mem.take(j as int), name@),
                decreases f.members.len() - j,
            {
                let m = &f.members[j];
                let ghost before = out.deep_view();
                assert(mem.take(j + 1).drop_last() =~= mem.take(j as int));
                assert(mem.take(j + 1).last() == m.deep_view());
                if str_eq(m.name.as_str(), name) {
                    out.push(m.to_location());
                    assert(out.deep_view() =~= before.push(member_model_of(m.deep_view())));
                    assert(out.deep_view() =~= base + members_named(mem.take(j + 1), name@));
                }
                j += 1;
            }
            assert(mem.take(f.members.len() as int) =~= mem);
            assert(files.take(i + 1).drop_last() =~= files.take(i as int));
            assert(files.take(i + 1).last() == f.deep_view());
            i += 1;
        }
        assert(files.take(self.files.len() as int) =~= files);
        out
    }

    /// Every member that the class `fqcn` declares.
    pub fn members_of_class(&self, fqcn: &str) -> (r: Vec<MemberLocation>)
        ensures
            r.deep_view() == members_of_class(self.deep_view(), fqcn@),
    {
        let mut out: Vec<MemberLocation> = Vec::new();
        let ghost files = self.deep_view();
        let mut i: usize = 0;
        assert(files.take(0) =~= Seq::<FileModel>::empty());
        assert(out.deep_view() =~= Seq::<MemberModel>::empty());
        while i < self.files.len()
            invariant
                i <= self.files.len(),
                files == self.deep_view(),
                out.deep_view() == members_of_class(files.take(i as int), fqcn@),
            decreases self.files.len() - i,
        {
            let f = &self.files[i];
            let ghost base = out.deep_view();
            let ghost mem = f.members.deep_view();
            let mut j: usize = 0;
            assert(mem.take(0) =~= Seq::<IndexedMemberModel>::empty());
            assert(base + Seq::<MemberModel>::empty() =~= base);
            while j < f.members.len()
                invariant
                    j <= f.members.len(),
                    mem == f.members.deep_view(),
                    out.deep_view() == base + members_owned(mem.take(j as int), fqcn@),
                decreases f.members.len() - j,
            {
                let m = &f.members[j];
                let ghost before = out.deep_view();
                assert(mem.take(j + 1).drop_last() =~= mem.take(j as int));
                assert(mem.take(j + 1).last() == m.deep_view());
                if has_owner(m.fqmn.as_str(), fqcn) {
                    out.push(m.to_location());
                    assert(out.deep_view() =~= before.push(member_model_of(m.deep_view())));
                    assert(out.deep_view() =~= base + members_owned(mem.take(j + 1), fqcn@));
                }
                j += 1;
            }
            assert(mem.take(f.members.len() as int) =~= mem);
            assert(files.take(i + 1).drop_last() =~= files.take(i as int));
            assert(files.take(i + 1).last() == f.deep_view());
            i += 1;
        }
        assert(files.take(self.files.len() as int) =~= files);
        out
    }
}

impl Default for GlobalIndex {
    /// An index without files.
    fn default() -> (r: GlobalIndex)
        ensures
            r.deep_view() == Seq::<FileModel>::empty(),
    {
        GlobalIndex::new()
    }
}

} // verus!
