//! Completion: the members of the class before the dot, or, where no member
//! is being written, the class names that the file knows and the keywords.

use vstd::prelude::*;
use ropey::Rope;
use crate::lang::java::{java_lang_symbol, match_java_lang};
use crate::resolve::{
    qualifier_chain, qualifier_node, qualifier_of, resolve_qualifier_chain, resolve_variable_class,
    variable_class,
};
use crate::rope::{
    byte_offset, char_at_byte, line_count, line_start, rope_byte_to_char, rope_char,
    rope_len_bytes, rope_len_lines, rope_line_to_char, rope_slice, rope_text,
};
use crate::state::{
    classes_by_short_name, file_facts, members_of_class, FileInfo, FileInfoModel, FileModel,
    GlobalIndex, MemberLocation, MemberModel, Position,
};
use crate::syntax::{NodeKind, NodeModel, SyntaxTree};
use crate::text::{
    chars_of, find_last, is_alnum, char_is_alphanumeric, is_prefix, last_segment, last_segment_of,
    starts_with, str_eq, trimmed, trimmed_part,
};
use crate::utils::{
    byte_at, char_index_at, char_index_for_position, deepest_at, descendant_for_byte,
    get_node_text, node_text, offset_for_position,
};

verus! {

/// What kind of thing a completion item stands for.
#[derive(Debug, Clone, Copy, PartialEq, Eq, Structural)]
pub enum CompletionItemKind {
    Field,
    Method,
    Class,
    Keyword,
}

/// One proposal for what to write at the cursor.
#[derive(Debug, Clone, PartialEq, Eq)]
pub struct CompletionItem {
    pub label: String,
    pub kind: CompletionItemKind,
    pub detail: Option<String>,
}

/// Model of a [`CompletionItem`].
pub struct ItemModel {
    pub label: Seq<char>,
    pub kind: CompletionItemKind,
    pub detail: Option<Seq<char>>,
}

impl DeepView for CompletionItem {
    type V = ItemModel;

    open spec fn deep_view(&self) -> ItemModel {
        ItemModel { label: self.label@, kind: self.kind, detail: self.detail.deep_view() }
    }
}

/// Whether one of the first `n` members has the qualified name `fqmn`.
pub open spec fn listed_before(members: Seq<MemberModel>, n: int, fqmn: Seq<char>) -> bool {
    exists|j: int| 0 <= j < n && #[trigger] members[j].fqmn == fqmn
}

/// The item that proposes the member `m` of the class `fqcn`.
pub open spec fn member_item(m: MemberModel, fqcn: Seq<char>) -> ItemModel {
    ItemModel {
        label: last_segment_of(m.fqmn),
        kind: if m.is_field {
            CompletionItemKind::Field
        } else {
            CompletionItemKind::Method
        },
        detail: Some(fqcn),
    }
}

/// The items for the first `n` of `members`: one for each member whose
/// qualified name did not occur before and whose name begins with `prefix`.
pub open spec fn member_items(
    members: Seq<MemberModel>,
    prefix: Seq<char>,
    fqcn: Seq<char>,
    n: int,
) -> Seq<ItemModel>
    decreases n,
{
    if n <= 0 {
        Seq::empty()
    } else {
        let rest = member_items(members, prefix, fqcn, n - 1);
        let m = members[n - 1];
        if !listed_before(members, n - 1, m.fqmn) && is_prefix(prefix, last_segment_of(m.fqmn)) {
            rest.push(member_item(m, fqcn))
        } else {
            rest
        }
    }
}

/// Whether the qualified name of member `n` occurs among the members before it.
fn seen_before(members: &Vec<MemberLocation>, n: usize) -> (r: bool)
    requires
        n < members.len(),
    ensures
        r == listed_before(members.deep_view(), n as int, members[n as int].fqmn@),
{
    let ghost models = members.deep_view();
    let mut j: usize = 0;
    while j < n
        invariant
            j <= n,
            n < members.len(),
            models == members.deep_view(),
            forall|i: int| 0 <= i < j ==> #[trigger] models[i].fqmn != members[n as int].fqmn@,
        decreases n - j,
    {
        if str_eq(members[j].fqmn.as_str(), members[n].fqmn.as_str()) {
            assert(models[j as int].fqmn == members[n as int].fqmn@);
            return true;
        }
        j += 1;
    }
    false
}

/// The items that propose the members of the class `fqcn` whose names
/// begin with `prefix`.
pub fn items_for_members(members: &Vec<MemberLocation>, prefix: &str, fqcn: &str) -> (r: Vec<
    CompletionItem,
>)
    ensures
        r.deep_view() == member_items(
            members.deep_view(),
            prefix@,
            fqcn@,
            members.len() as int,
        ),
{
    let ghost models = members.deep_view();
    let mut items: Vec<CompletionItem> = Vec::new();
    let mut k: usize = 0;
    assert(items.deep_view() =~= Seq::<ItemModel>::empty());
    while k < members.len()
        invariant
            k <= members.len(),
            models == members.deep_view(),
            items.deep_view() == member_items(models, prefix@, fqcn@, k as int),
        decreases members.len() - k,
    {
        let m = &members[k];
        assert(models[k as int] == m.deep_view());
        if !seen_before(members, k) {
            let name = last_segment(m.fqmn.as_str());
            if starts_with(name.as_str(), prefix) {
                let ghost before = items.deep_view();
                let item = CompletionItem {
                    label: name,
                    kind: if m.is_field {
                        CompletionItemKind::Field
                    } else {
                        CompletionItemKind::Method
                    },
                    detail: Some(fqcn.to_owned()),
                };
                items.push(item);
                assert(items.deep_view() =~= before.push(item.deep_view()));
            }
        }
        k += 1;
    }
    items
}

/// Whether one of `items` has the label `label`.
pub open spec fn has_label(items: Seq<ItemModel>, label: Seq<char>) -> bool {
    exists|j: int| 0 <= j < items.len() && #[trigger] items[j].label == label
}

/// `items` with `item` added, unless its label is there already.
pub open spec fn add_unique(items: Seq<ItemModel>, item: ItemModel) -> Seq<ItemModel> {
    if has_label(items, item.label) {
        items
    } else {
        items.push(item)
    }
}

/// `items` with a class item added for each of the first `n` names.
pub open spec fn with_classes(items: Seq<ItemModel>, names: Seq<Seq<char>>, n: int) -> Seq<
    ItemModel,
>
    decreases n,
{
    if n <= 0 {
        items
    } else {
        add_unique(
            with_classes(items, names, n - 1),
            ItemModel { label: names[n - 1], kind: CompletionItemKind::Class, detail: None },
        )
    }
}

/// `items` with a class item added for each of the first `n` imports, under
/// the import's last segment.
pub open spec fn with_imports(items: Seq<ItemModel>, imports: Seq<Seq<char>>, n: int) -> Seq<
    ItemModel,
>
    decreases n,
{
    if n <= 0 {
        items
    } else {
        add_unique(
            with_imports(items, imports, n - 1),
            ItemModel {
                label: last_segment_of(imports[n - 1]),
                kind: CompletionItemKind::Class,
                detail: Some(imports[n - 1]),
            },
        )
    }
}

/// The classes of `java.lang` that are proposed wherever the index has
/// them.
pub open spec fn base_classes() -> Seq<Seq<char>> {
    seq!["String"@, "System"@, "Object"@, "Exception"@, "Throwable"@]
}

/// `items` with the base class `name` added, where no item has that label
/// yet and the index has a class of that name in `java.lang`.
pub open spec fn with_base(items: Seq<ItemModel>, files: Seq<FileModel>, name: Seq<char>) -> Seq<
    ItemModel,
> {
    if has_label(items, name) {
        items
    } else {
        match java_lang_symbol(classes_by_short_name(files, name)) {
            Some(c) => items.push(
                ItemModel { label: name, kind: CompletionItemKind::Class, detail: Some(c.fqcn) },
            ),
            None => items,
        }
    }
}

/// `items` with the first `n` base classes added.
pub open spec fn with_bases(items: Seq<ItemModel>, files: Seq<FileModel>, n: int) -> Seq<ItemModel>
    decreases n,
{
    if n <= 0 {
        items
    } else {
        with_base(with_bases(items, files, n - 1), files, base_classes()[n - 1])
    }
}

/// `items` with a keyword item added for each of the first `n` keywords.
pub open spec fn with_keywords(items: Seq<ItemModel>, keywords: Seq<Seq<char>>, n: int) -> Seq<
    ItemModel,
>
    decreases n,
{
    if n <= 0 {
        items
    } else {
        with_keywords(items, keywords, n - 1).push(
            ItemModel { label: keywords[n - 1], kind: CompletionItemKind::Keyword, detail: None },
        )
    }
}

/// What is proposed where no member is being written: the classes that the
/// file defines, those it imports, the base classes, each label once; and,
/// where a new word begins, the keywords.
pub open spec fn general_items(
    files: Seq<FileModel>,
    info: FileInfoModel,
    keywords: Seq<Seq<char>>,
    new_word: bool,
) -> Seq<ItemModel> {
    let classes = with_bases(
        with_imports(
            with_classes(
                Seq::empty(),
                info.defined_classes,
                info.defined_classes.len() as int,
            ),
            info.imports,
            info.imports.len() as int,
        ),
        files,
        base_classes().len() as int,
    );
    if new_word {
        with_keywords(classes, keywords, keywords.len() as int)
    } else {
        classes
    }
}

/// Whether one of `items` has the label `label`.
fn label_listed(items: &Vec<CompletionItem>, label: &str) -> (r: bool)
    ensures
        r == has_label(items.deep_view(), label@),
{
    let ghost models = items.deep_view();
    let mut j: usize = 0;
    while j < items.len()
        invariant
            j <= items.len(),
            models == items.deep_view(),
            forall|i: int| 0 <= i < j ==> #[trigger] models[i].label != label@,
        decreases items.len() - j,
    {
        if str_eq(items[j].label.as_str(), label) {
            assert(models[j as int].label == label@);
            return true;
        }
        j += 1;
    }
    false
}

/// Adds the base class `name` where it is missing and the index has it.
fn add_base(items: &mut Vec<CompletionItem>, index: &GlobalIndex, name: &str)
    ensures
        final(items).deep_view() == with_base(old(items).deep_view(), index.deep_view(), name@),
{
    if label_listed(items, name) {
        return ;
    }
    let candidates = index.classes_by_short_name(name);
    let all = candidates.as_slice();
    assert(all.deep_view() =~= candidates.deep_view());
    match match_java_lang(all) {
        Some(loc) => {
            let ghost before = items.deep_view();
            let item = CompletionItem {
                label: name.to_owned(),
                kind: CompletionItemKind::Class,
                detail: Some(loc.fqcn),
            };
            items.push(item);
            assert(items.deep_view() =~= before.push(item.deep_view()));
        },
        None => {},
    }
}

/// What is proposed where no member is being written.
pub fn items_in_general(
    index: &GlobalIndex,
    file_info: &FileInfo,
    keywords: &[String],
    new_word: bool,
) -> (r: Vec<CompletionItem>)
    ensures
        r.deep_view() == general_items(
            index.deep_view(),
            file_info.deep_view(),
            keywords.deep_view(),
            new_word,
        ),
{
    let ghost files = index.deep_view();
    let ghost info = file_info.deep_view();
    let mut items: Vec<CompletionItem> = Vec::new();
    assert(items.deep_view() =~= Seq::<ItemModel>::empty());
    let mut i: usize = 0;
    while i < file_info.defined_classes.len()
        invariant
            i <= file_info.defined_classes.len(),
            info == file_info.deep_view(),
            items.deep_view() == with_classes(Seq::empty(), info.defined_classes, i as int),
        decreases file_info.defined_classes.len() - i,
    {
        let class = &file_info.defined_classes[i];
        assert(info.defined_classes[i as int] == class@);
        if !label_listed(&items, class.as_str()) {
            let ghost before = items.deep_view();
            let item = CompletionItem {
                label: class.clone(),
                kind: CompletionItemKind::Class,
                detail: None,
            };
            items.push(item);
            assert(items.deep_view() =~= before.push(item.deep_view()));
        }
        i += 1;
    }
    let ghost after_classes = items.deep_view();
    let mut i: usize = 0;
    while i < file_info.imports.len()
        invariant
            i <= file_info.imports.len(),
            info == file_info.deep_view(),
            items.deep_view() == with_imports(after_classes, info.imports, i as int),
        decreases file_info.imports.len() - i,
    {
        let import = &file_info.imports[i];
        assert(info.imports[i as int] == import@);
        let short = last_segment(import.as_str());
        if !label_listed(&items, short.as_str()) {
            let ghost before = items.deep_view();
            let item = CompletionItem {
                label: short,
                kind: CompletionItemKind::Class,
                detail: Some(import.clone()),
            };
            items.push(item);
            assert(items.deep_view() =~= before.push(item.deep_view()));
        }
        i += 1;
    }
    let ghost after_imports = items.deep_view();
    proof {
        reveal_with_fuel(with_bases, 6);
    }
    add_base(&mut items, index, "String");
    add_base(&mut items, index, "System");
    add_base(&mut items, index, "Object");
    add_base(&mut items, index, "Exception");
    add_base(&mut items, index, "Throwable");
    assert(items.deep_view() == with_bases(after_imports, files, 5));
    if new_word {
        let ghost after_bases = items.deep_view();
        let mut k: usize = 0;
        while k < keywords.len()
            invariant
                k <= keywords.len(),
                items.deep_view() == with_keywords(after_bases, keywords.deep_view(), k as int),
            decreases keywords.len() - k,
        {
            let ghost before = items.deep_view();
            let item = CompletionItem {
                label: keywords[k].clone(),
                kind: CompletionItemKind::Keyword,
                detail: None,
            };
            items.push(item);
            assert(items.deep_view() =~= before.push(item.deep_view()));
            k += 1;
        }
    }
    items
}

/// The char that stands before byte `byte` of the text; none at the start
/// of the text and past its end.
pub open spec fn char_before_byte(text: Seq<char>, byte: int) -> Option<char> {
    let index = char_at_byte(text, byte);
    if 0 < byte <= byte_offset(text, text.len() as int) && 0 < index <= text.len() {
        Some(text[index - 1])
    } else {
        None
    }
}

/// The char that stands before byte `byte_idx`.
pub fn byte_before(rope: &Rope, byte_idx: usize) -> (r: Option<char>)
    ensures
        r == char_before_byte(rope_text(*rope), byte_idx as int),
{
    if byte_idx == 0 || byte_idx > rope_len_bytes(rope) {
        return None;
    }
    let index = rope_byte_to_char(rope, byte_idx);
    if index == 0 {
        return None;
    }
    Some(rope_char(rope, index - 1))
}

/// How many chars line `line` of the text has, its line break included.
pub open spec fn line_len(text: Seq<char>, line: int) -> int {
    let len = line_start(text, line + 1) - line_start(text, line);
    if len < 0 {
        0
    } else if len > u32::MAX {
        u32::MAX as int
    } else {
        len
    }
}

/// The position one char before `position`: on the same line where the
/// column allows, else on the last char of the line before. None at the
/// start of the document and where the line before does not exist.
pub open spec fn position_before_of(text: Seq<char>, position: Position) -> Option<Position> {
    if position.character > 0 {
        Some(Position { line: position.line, character: (position.character - 1) as u32 })
    } else if position.line == 0 || position.line - 1 >= line_count(text) {
        None
    } else {
        let len = line_len(text, position.line - 1);
        Some(
            Position {
                line: (position.line - 1) as u32,
                character: if len > 0 {
                    (len - 1) as u32
                } else {
                    0
                },
            },
        )
    }
}

/// The position one char before `position`.
pub fn position_before(rope: &Rope, position: Position) -> (r: Option<Position>)
    ensures
        r == position_before_of(rope_text(*rope), position),
{
    if position.character > 0 {
        return Some(Position { line: position.line, character: position.character - 1 });
    }
    if position.line == 0 {
        return None;
    }
    let prev_line = position.line - 1;
    let lines = rope_len_lines(rope);
    if prev_line as usize >= lines {
        return None;
    }
    let start = rope_line_to_char(rope, prev_line as usize);
    let end = rope_line_to_char(rope, prev_line as usize + 1);
    let len: usize = if end < start {
        0
    } else if end - start > 0xFFFF_FFFF {
        0xFFFF_FFFF
    } else {
        end - start
    };
    let character: u32 = if len > 0 {
        (len - 1) as u32
    } else {
        0
    };
    Some(Position { line: prev_line, character })
}

/// The text of the node that ends at the dot before `position`: of the
/// smallest node at the dot, if that is an identifier, else of its parent.
pub open spec fn dot_qualifier(nodes: Seq<NodeModel>, text: Seq<char>, position: Position) -> Option<
    Seq<char>,
> {
    match position_before_of(text, position) {
        Some(lookup) => match byte_at(text, lookup) {
            Some(b) => if nodes.len() > 0 {
                let node = deepest_at(nodes, 0, b);
                if nodes[node].kind == NodeKind::Identifier || nodes[node].kind
                    == NodeKind::TypeIdentifier {
                    Some(node_text(nodes, text, node))
                } else {
                    match nodes[node].parent {
                        Some(p) => if 0 <= p < nodes.len() {
                            Some(node_text(nodes, text, p))
                        } else {
                            None
                        },
                        None => None,
                    }
                }
            } else {
                None
            },
            None => None,
        },
        None => None,
    }
}

/// The text of the node that ends at the dot before `position`.
pub fn qualifier_at_dot(tree: &SyntaxTree, rope: &Rope, position: Position) -> (r: Option<String>)
    ensures
        r.deep_view() == dot_qualifier(tree@, rope_text(*rope), position),
{
    let lookup = match position_before(rope, position) {
        Some(p) => p,
        None => {
            return None;
        },
    };
    let byte = match offset_for_position(rope, lookup) {
        Some(b) => b,
        None => {
            return None;
        },
    };
    if tree.len() == 0 {
        return None;
    }
    let node = descendant_for_byte(tree, 0, byte);
    let kind = tree.kind(node);
    if kind == NodeKind::Identifier || kind == NodeKind::TypeIdentifier {
        Some(get_node_text(tree, node, rope))
    } else {
        match tree.parent(node) {
            Some(p) => Some(get_node_text(tree, p, rope)),
            None => None,
        }
    }
}

/// The part of node `id` that stands before the char `caret`.
pub open spec fn prefix_of(nodes: Seq<NodeModel>, text: Seq<char>, id: int, caret: int) -> Seq<
    char,
> {
    let start = char_at_byte(text, nodes[id].start_byte);
    let end = char_at_byte(text, nodes[id].end_byte);
    let stop = if caret < end {
        caret
    } else {
        end
    };
    if nodes[id].end_byte <= byte_offset(text, text.len() as int) && 0 <= start < caret && start
        <= stop <= text.len() {
        text.subrange(start, stop)
    } else {
        Seq::empty()
    }
}

/// The part of `node` that stands before the cursor.
pub fn slice_prefix(tree: &SyntaxTree, node: usize, rope: &Rope, caret: usize) -> (r: String)
    requires
        node < tree@.len(),
    ensures
        r@ == prefix_of(tree@, rope_text(*rope), node as int, caret as int),
{
    let start_byte = tree.start_byte(node);
    let end_byte = tree.end_byte(node);
    if end_byte > rope_len_bytes(rope) {
        return String::new();
    }
    let start = rope_byte_to_char(rope, start_byte);
    let end = rope_byte_to_char(rope, end_byte);
    if caret <= start {
        return String::new();
    }
    let stop = if caret < end {
        caret
    } else {
        end
    };
    if start > stop {
        return String::new();
    }
    rope_slice(rope, start, stop)
}

/// What is being completed: a member of `qualifier` whose name begins with
/// `prefix`.
#[derive(Debug, Clone)]
pub struct MemberContext {
    pub qualifier: String,
    pub prefix: String,
}

/// Model of a [`MemberContext`].
pub struct ContextModel {
    pub qualifier: Seq<char>,
    pub prefix: Seq<char>,
}

impl DeepView for MemberContext {
    type V = ContextModel;

    open spec fn deep_view(&self) -> ContextModel {
        ContextModel { qualifier: self.qualifier@, prefix: self.prefix@ }
    }
}

/// The member context that the text of the cursor's line shows: what stands
/// before the last dot before the cursor, white space apart, as qualifier,
/// and what stands after it as prefix. None without a dot or a qualifier.
pub open spec fn textual_context(text: Seq<char>, position: Position) -> Option<ContextModel> {
    match char_index_at(text, position) {
        Some(caret) => {
            let start = line_start(text, position.line as int);
            if 0 <= start <= caret {
                let line = text.subrange(start, caret);
                match line.index_of_last('.') {
                    Some(dot) => if 0 <= dot < line.len() && trimmed(line.subrange(0, dot)).len()
                        > 0 {
                        Some(
                            ContextModel {
                                qualifier: trimmed(line.subrange(0, dot)),
                                prefix: line.subrange(dot + 1, line.len() as int),
                            },
                        )
                    } else {
                        None
                    },
                    None => None,
                }
            } else {
                None
            }
        },
        None => None,
    }
}

/// The member context that the text of the cursor's line shows.
pub fn textual_member_context(rope: &Rope, position: Position) -> (r: Option<MemberContext>)
    ensures
        r.deep_view() == textual_context(rope_text(*rope), position),
{
    let caret = match char_index_for_position(rope, position) {
        Some(c) => c,
        None => {
            return None;
        },
    };
    let start = rope_line_to_char(rope, position.line as usize);
    if start > caret {
        return None;
    }
    let line = rope_slice(rope, start, caret);
    let chars = chars_of(line.as_str());
    match find_last(&chars, '.') {
        Some(dot) => {
            let qualifier = trimmed_part(line.as_str(), &chars, 0, dot);
            if qualifier.as_str().unicode_len() == 0 {
                return None;
            }
            let prefix = line.as_str().substring_char(dot + 1, chars.len()).to_owned();
            Some(MemberContext { qualifier, prefix })
        },
        None => None,
    }
}

/// The member context at the cursor, given the char before it. Right after
/// a dot it is the node that ends at the dot, with an empty prefix. On a
/// name that has a qualifier it is that qualifier, with the part of the
/// name before the cursor as prefix. Else it is what the line's text shows.
pub open spec fn member_context(
    nodes: Seq<NodeModel>,
    text: Seq<char>,
    position: Position,
    prev: Option<char>,
) -> Option<ContextModel> {
    if prev == Some('.') {
        match dot_qualifier(nodes, text, position) {
            Some(q) => Some(ContextModel { qualifier: q, prefix: Seq::empty() }),
            None => None,
        }
    } else {
        match byte_at(text, position) {
            Some(b) => {
                let at = if b > 0 {
                    b - 1
                } else {
                    0
                };
                let structural = if nodes.len() > 0 {
                    let node = deepest_at(nodes, 0, at);
                    if nodes[node].kind == NodeKind::Identifier || nodes[node].kind
                        == NodeKind::FieldIdentifier {
                        match qualifier_node(nodes, node) {
                            Some(q) => Some(
                                ContextModel {
                                    qualifier: node_text(nodes, text, q),
                                    prefix: prefix_of(
                                        nodes,
                                        text,
                                        node,
                                        char_index_at(text, position)->0,
                                    ),
                                },
                            ),
                            None => None,
                        }
                    } else {
                        None
                    }
                } else {
                    None
                };
                match structural {
                    Some(c) => Some(c),
                    None => textual_context(text, position),
                }
            },
            None => None,
        }
    }
}

/// The member context at the cursor.
pub fn member_completion_context(
    tree: &SyntaxTree,
    rope: &Rope,
    position: Position,
    prev_char: Option<char>,
) -> (r: Option<MemberContext>)
    ensures
        r.deep_view() == member_context(tree@, rope_text(*rope), position, prev_char),
{
    if prev_char == Some('.') {
        return match qualifier_at_dot(tree, rope, position) {
            Some(qualifier) => Some(MemberContext { qualifier, prefix: String::new() }),
            None => None,
        };
    }
    let caret = match char_index_for_position(rope, position) {
        Some(c) => c,
        None => {
            return None;
        },
    };
    let byte = match offset_for_position(rope, position) {
        Some(b) => b,
        None => {
            return None;
        },
    };
    if tree.len() > 0 {
        let at = if byte > 0 {
            byte - 1
        } else {
            0
        };
        let node = descendant_for_byte(tree, 0, at);
        let kind = tree.kind(node);
        if kind == NodeKind::Identifier || kind == NodeKind::FieldIdentifier {
            match qualifier_of(tree, node) {
                Some(q) => {
                    return Some(
                        MemberContext {
                            qualifier: get_node_text(tree, q, rope),
                            prefix: slice_prefix(tree, node, rope, caret),
                        },
                    );
                },
                None => {},
            }
        }
    }
    textual_member_context(rope, position)
}

/// The class whose members are proposed for `qualifier`: the class that the
/// qualifier names as a chain, else the class of the variable of that name.
pub open spec fn completion_owner(
    nodes: Seq<NodeModel>,
    text: Seq<char>,
    files: Seq<FileModel>,
    info: FileInfoModel,
    qualifier: Seq<char>,
) -> Option<Seq<char>> {
    match qualifier_chain(files, info, qualifier) {
        Some(c) => Some(c),
        None => variable_class(nodes, text, files, info, qualifier),
    }
}

/// The class whose members are proposed for `qualifier`.
pub fn resolve_qualifier_for_completion(
    qualifier: &str,
    index: &GlobalIndex,
    file_info: &FileInfo,
    tree: &SyntaxTree,
    rope: &Rope,
) -> (r: Option<String>)
    ensures
        r.deep_view() == completion_owner(
            tree@,
            rope_text(*rope),
            index.deep_view(),
            file_info.deep_view(),
            qualifier@,
        ),
{
    match resolve_qualifier_chain(qualifier, index, file_info) {
        Some(fqcn) => {
            return Some(fqcn);
        },
        None => {},
    }
    resolve_variable_class(tree, rope, qualifier, index, file_info)
}

/// Whether a new word begins after the char `prev`: it is neither a letter
/// or digit nor a dot.
pub open spec fn begins_word(prev: Option<char>) -> bool {
    match prev {
        Some(c) => !is_alnum(c) && c != '.',
        None => true,
    }
}

/// What is proposed at `position` of the document `uri`; none where the
/// position is outside the text, the file is not indexed, the class before
/// the dot is not known, or there is nothing to propose in general.
pub open spec fn completion_items(
    nodes: Seq<NodeModel>,
    text: Seq<char>,
    position: Position,
    files: Seq<FileModel>,
    uri: Seq<char>,
    keywords: Seq<Seq<char>>,
) -> Option<Seq<ItemModel>> {
    match byte_at(text, position) {
        Some(b) => {
            let prev = char_before_byte(text, b);
            match file_facts(files, uri) {
                Some(info) => match member_context(nodes, text, position, prev) {
                    Some(ctx) => match completion_owner(nodes, text, files, info, ctx.qualifier) {
                        Some(fqcn) => Some(
                            member_items(
                                members_of_class(files, fqcn),
                                ctx.prefix,
                                fqcn,
                                members_of_class(files, fqcn).len() as int,
                            ),
                        ),
                        None => None,
                    },
                    None => {
                        let items = general_items(files, info, keywords, begins_word(prev));
                        if items.len() == 0 {
                            None
                        } else {
                            Some(items)
                        }
                    },
                },
                None => None,
            }
        },
        None => None,
    }
}

/// What is proposed at `position`.
pub fn complete(
    tree: &SyntaxTree,
    rope: &Rope,
    position: Position,
    index: &GlobalIndex,
    current_uri: &str,
    keywords: &[String],
) -> (r: Option<Vec<CompletionItem>>)
    ensures
        r.deep_view() == completion_items(
            tree@,
            rope_text(*rope),
            position,
            index.deep_view(),
            current_uri@,
            keywords.deep_view(),
        ),
{
    let byte_idx = match offset_for_position(rope, position) {
        Some(b) => b,
        None => {
            return None;
        },
    };
    let prev_char = byte_before(rope, byte_idx);
    let file_info = match index.file_info(current_uri) {
        Some(info) => info,
        None => {
            return None;
        },
    };
    match member_completion_context(tree, rope, position, prev_char) {
        Some(ctx) => {
            let fqcn = match resolve_qualifier_for_completion(
                ctx.qualifier.as_str(),
                index,
                &file_info,
                tree,
                rope,
            ) {
                Some(f) => f,
                None => {
                    return None;
                },
            };
            let members = index.members_of_class(fqcn.as_str());
            Some(items_for_members(&members, ctx.prefix.as_str(), fqcn.as_str()))
        },
        None => {
            let new_word = match prev_char {
                Some(c) => !char_is_alphanumeric(c) && c != '.',
                None => true,
            };
            let items = items_in_general(index, &file_info, keywords, new_word);
            if items.len() == 0 {
                None
            } else {
                Some(items)
            }
        },
    }
}

} // verus!
