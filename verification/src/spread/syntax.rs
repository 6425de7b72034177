//! What the attribute deriver works on: the description of a bundle of attributes.

use vstd::prelude::*;
use vstd::string::*;

verus! {

/// The views of a sequence of names.
pub open spec fn names_view(names: Seq<String>) -> Seq<Seq<char>> {
    Seq::new(names.len(), |i: int| names[i]@)
}

/// The view of an optional list of names.
pub open spec fn optional_names_view(names: Option<Vec<String>>) -> Option<Seq<Seq<char>>> {
    match names {
        Some(list) => Some(names_view(list@)),
        None => None,
    }
}

/// The tags on which a bundle may be spread.
#[derive(Debug, PartialEq, Eq)]
pub enum ImplTags {
    /// Every standard tag, without those in `exclude`, and those in `extra`.
    DefaultWith { extra: Option<Vec<String>>, exclude: Option<Vec<String>> },
    /// The listed tags and no other.
    Only(Vec<String>),
}

pub enum ImplTagsView {
    DefaultWith { extra: Option<Seq<Seq<char>>>, exclude: Option<Seq<Seq<char>>> },
    Only(Seq<Seq<char>>),
}

impl View for ImplTags {
    type V = ImplTagsView;

    open spec fn view(&self) -> ImplTagsView {
        match self {
            ImplTags::DefaultWith { extra, exclude } => ImplTagsView::DefaultWith {
                extra: optional_names_view(*extra),
                exclude: optional_names_view(*exclude),
            },
            ImplTags::Only(list) => ImplTagsView::Only(names_view(list@)),
        }
    }
}

/// Is `name` one of the standard tags of `lfml_html5`?
pub uninterp spec fn is_html5_tag(name: Seq<char>) -> bool;

/// Hands out the tag list `lfml_html5::VALID_HTML5_TAGS`. The contract names what is in
/// it: the standard tags are the names in the list, and no other.
#[verifier::external_body]
fn standard_tags() -> (out: &'static [&'static str])
    ensures
        forall|name: Seq<char>|
            #[trigger] is_html5_tag(name) <==> exists|i: int|
                0 <= i < out@.len() && (#[trigger] out@[i])@ == name,
{
    lfml_html5::VALID_HTML5_TAGS
}

/// Is `name` one of the standard tags?
#[verifier::loop_isolation(false)]
pub fn is_standard_tag(name: &str) -> (out: bool)
    ensures
        out == is_html5_tag(name@),
{
    let tags = standard_tags();
    let mut i: usize = 0;
    while i < tags.len()
        invariant
            i <= tags.len(),
            forall|k: int| 0 <= k < i ==> (#[trigger] tags@[k])@ != name@,
        decreases tags.len() - i,
    {
        if *tags[i] == *name {
            assert(tags@[i as int]@ == name@);
            return true;
        }
        i += 1;
    }
    false
}

/// The standard tags, in the order of their list.
#[verifier::loop_isolation(false)]
pub fn standard_tag_names() -> (out: Vec<String>)
    ensures
        forall|name: Seq<char>|
            #[trigger] is_html5_tag(name) <==> names_view(out@).contains(name),
{
    let tags = standard_tags();
    let mut out: Vec<String> = Vec::new();
    let mut i: usize = 0;
    while i < tags.len()
        invariant
            i <= tags.len(),
            out.len() == i,
            forall|k: int| 0 <= k < i ==> (#[trigger] out@[k])@ == tags@[k]@,
        decreases tags.len() - i,
    {
        out.push(String::from_str(tags[i]));
        i += 1;
    }
    proof {
        let names = names_view(out@);
        assert forall|name: Seq<char>| #[trigger] is_html5_tag(name) <==> names.contains(
            name,
        ) by {
            if is_html5_tag(name) {
                let k = choose|k: int| 0 <= k < tags@.len() && (#[trigger] tags@[k])@ == name;
                assert(names[k] == name);
            }
            if names.contains(name) {
                let k = choose|k: int| 0 <= k < names.len() && names[k] == name;
                assert(tags@[k]@ == name);
            }
        }
    }
    out
}

/// Is `name` in the optional list `names`?
pub open spec fn listed(names: Option<Seq<Seq<char>>>, name: Seq<char>) -> bool {
    names matches Some(list) && list.contains(name)
}

impl ImplTagsView {
    /// May a bundle with these tags be spread on the tag `tag`? With a list given by
    /// `Only`: where the list names the tag. Otherwise: where the tag is a standard one that
    /// is not excluded, or is an extra one.
    pub open spec fn allows(self, tag: Seq<char>) -> bool {
        match self {
            ImplTagsView::Only(list) => list.contains(tag),
            ImplTagsView::DefaultWith { extra, exclude } => (is_html5_tag(tag) && !listed(
                exclude,
                tag,
            )) || listed(extra, tag),
        }
    }
}

/// Is `name` among `names`?
pub fn contains_name(names: &Vec<String>, name: &str) -> (out: bool)
    ensures
        out == names_view(names@).contains(name@),
{
    let mut i: usize = 0;
    while i < names.len()
        invariant
            i <= names.len(),
            forall|k: int| 0 <= k < i ==> names[k]@ != name@,
        decreases names.len() - i,
    {
        if *names[i].as_str() == *name {
            assert(names_view(names@)[i as int] == name@);
            return true;
        }
        i += 1;
    }
    false
}

/// Is `name` in the optional list `names`?
pub fn is_listed(names: &Option<Vec<String>>, name: &str) -> (out: bool)
    ensures
        out == listed(optional_names_view(*names), name@),
{
    match names {
        Some(list) => contains_name(list, name),
        None => false,
    }
}

impl ImplTags {
    /// May a bundle with these tags be spread on the tag `tag`?
    pub fn allows(&self, tag: &str) -> (out: bool)
        ensures
            out == self@.allows(tag@),
    {
        match self {
            ImplTags::Only(list) => contains_name(list, tag),
            ImplTags::DefaultWith { extra, exclude } => {
                (is_standard_tag(tag) && !is_listed(exclude, tag)) || is_listed(extra, tag)
            },
        }
    }
}

impl ImplTags {
    /// A copy of these tags.
    pub fn duplicate(&self) -> (out: ImplTags)
        ensures
            out@ == self@,
    {
        match self {
            ImplTags::Only(list) => ImplTags::Only(duplicate_names(list)),
            ImplTags::DefaultWith { extra, exclude } => ImplTags::DefaultWith {
                extra: match extra {
                    Some(list) => Some(duplicate_names(list)),
                    None => None,
                },
                exclude: match exclude {
                    Some(list) => Some(duplicate_names(list)),
                    None => None,
                },
            },
        }
    }
}

/// A copy of a list of names.
pub fn duplicate_names(names: &Vec<String>) -> (out: Vec<String>)
    ensures
        names_view(out@) == names_view(names@),
{
    let mut out: Vec<String> = Vec::new();
    let mut i: usize = 0;
    while i < names.len()
        invariant
            i <= names.len(),
            out.len() == i,
            forall|k: int| 0 <= k < i ==> out[k]@ == names[k]@,
        decreases names.len() - i,
    {
        out.push(names[i].clone());
        i += 1;
    }
    assert(names_view(out@) =~= names_view(names@));
    out
}

/// One field of a bundle.
#[derive(Debug, PartialEq, Eq)]
pub struct SpreadField {
    /// The attribute name given to the field, if one was.
    pub rename: Option<String>,
    /// The field's own name.
    pub name: String,
    /// Is the field optional?
    pub is_option: bool,
    /// Is the field's value escaped when it is put out?
    pub is_escaped: bool,
    /// Does the field stand for a bare attribute, without a value?
    pub is_name_only: bool,
}

pub struct SpreadFieldView {
    pub rename: Option<Seq<char>>,
    pub name: Seq<char>,
    pub is_option: bool,
    pub is_escaped: bool,
    pub is_name_only: bool,
}

/// The view of an optional text.
pub open spec fn optional_text_view(text: Option<String>) -> Option<Seq<char>> {
    match text {
        Some(t) => Some(t@),
        None => None,
    }
}

impl View for SpreadField {
    type V = SpreadFieldView;

    open spec fn view(&self) -> SpreadFieldView {
        SpreadFieldView {
            rename: optional_text_view(self.rename),
            name: self.name@,
            is_option: self.is_option,
            is_escaped: self.is_escaped,
            is_name_only: self.is_name_only,
        }
    }
}

/// The views of a sequence of fields.
pub open spec fn fields_view(fields: Seq<SpreadField>) -> Seq<SpreadFieldView> {
    Seq::new(fields.len(), |i: int| fields[i]@)
}

/// The fields of a struct or of one variant, with the naming policy in force for them.
#[derive(Debug, PartialEq, Eq)]
pub struct SpreadBlock {
    pub prefix: Option<String>,
    pub suffix: Option<String>,
    pub fields: Vec<SpreadField>,
}

pub struct SpreadBlockView {
    pub prefix: Option<Seq<char>>,
    pub suffix: Option<Seq<char>>,
    pub fields: Seq<SpreadFieldView>,
}

impl View for SpreadBlock {
    type V = SpreadBlockView;

    open spec fn view(&self) -> SpreadBlockView {
        SpreadBlockView {
            prefix: optional_text_view(self.prefix),
            suffix: optional_text_view(self.suffix),
            fields: fields_view(self.fields@),
        }
    }
}

/// The views of the variants of an enum: each by its name and its block.
pub open spec fn variants_view(variants: Seq<(String, SpreadBlock)>) -> Seq<
    (Seq<char>, SpreadBlockView),
> {
    Seq::new(variants.len(), |i: int| (variants[i].0@, variants[i].1@))
}

/// The fields of a host type.
#[derive(Debug, PartialEq, Eq)]
pub enum SpreadData {
    /// Those of a struct.
    Struct(SpreadBlock),
    /// Those of an enum, variant by variant.
    Enum(Vec<(String, SpreadBlock)>),
}

pub enum SpreadDataView {
    Struct(SpreadBlockView),
    Enum(Seq<(Seq<char>, SpreadBlockView)>),
}

impl View for SpreadData {
    type V = SpreadDataView;

    open spec fn view(&self) -> SpreadDataView {
        match self {
            SpreadData::Struct(block) => SpreadDataView::Struct(block@),
            SpreadData::Enum(variants) => SpreadDataView::Enum(variants_view(variants@)),
        }
    }
}

/// What the deriver knows of a host type.
#[derive(Debug, PartialEq, Eq)]
pub struct SpreadInput {
    /// The tags that the bundle may be spread on.
    pub tags: ImplTags,
    /// The name of the host type.
    pub data_id: String,
    /// The names of the host type's type parameters.
    pub generics: Vec<String>,
    /// The fields.
    pub fields: SpreadData,
}

pub struct SpreadInputView {
    pub tags: ImplTagsView,
    pub data_id: Seq<char>,
    pub generics: Seq<Seq<char>>,
    pub fields: SpreadDataView,
}

impl View for SpreadInput {
    type V = SpreadInputView;

    open spec fn view(&self) -> SpreadInputView {
        SpreadInputView {
            tags: self.tags@,
            data_id: self.data_id@,
            generics: names_view(self.generics@),
            fields: self.fields@,
        }
    }
}

/// The names from the index `from` on of the standard tags `standard` that are neither
/// excluded nor named again among the extra ones.
pub open spec fn kept_standard(
    standard: Seq<Seq<char>>,
    from: int,
    extra: Option<Seq<Seq<char>>>,
    exclude: Option<Seq<Seq<char>>>,
) -> Seq<Seq<char>>
    decreases standard.len() - from,
{
    if 0 <= from < standard.len() {
        if listed(exclude, standard[from]) || listed(extra, standard[from]) {
            kept_standard(standard, from + 1, extra, exclude)
        } else {
            seq![standard[from]] + kept_standard(standard, from + 1, extra, exclude)
        }
    } else {
        Seq::empty()
    }
}

/// The names of an optional list; none where there is no list.
pub open spec fn list_or_empty(names: Option<Seq<Seq<char>>>) -> Seq<Seq<char>> {
    match names {
        Some(list) => list,
        None => Seq::empty(),
    }
}

impl ImplTagsView {
    /// The tags that get an accessor, in the order in which the accessors are generated,
    /// where `standard` are the standard tags: the listed ones for `Only`; otherwise the
    /// standard ones that are kept, and then the extra ones.
    pub open spec fn accessors(self, standard: Seq<Seq<char>>) -> Seq<Seq<char>> {
        match self {
            ImplTagsView::Only(list) => list,
            ImplTagsView::DefaultWith { extra, exclude } => kept_standard(
                standard,
                0,
                extra,
                exclude,
            ) + list_or_empty(extra),
        }
    }
}

impl ImplTags {
    /// The tags that get an accessor, where `standard` are the standard tags.
    pub fn accessors(&self, standard: &Vec<String>) -> (out: Vec<String>)
        ensures
            names_view(out@) == self@.accessors(names_view(standard@)),
    {
        match self {
            ImplTags::Only(list) => duplicate_names(list),
            ImplTags::DefaultWith { extra, exclude } => {
                let ghost all = names_view(standard@);
                let ghost added = optional_names_view(*extra);
                let ghost removed = optional_names_view(*exclude);
                let mut out: Vec<String> = Vec::new();
                let mut i: usize = 0;
                assert(names_view(out@) + kept_standard(all, 0, added, removed) =~= kept_standard(
                    all,
                    0,
                    added,
                    removed,
                ));
                while i < standard.len()
                    invariant
                        i <= standard.len(),
                        all == names_view(standard@),
                        added == optional_names_view(*extra),
                        removed == optional_names_view(*exclude),
                        names_view(out@) + kept_standard(all, i as int, added, removed)
                            == kept_standard(all, 0, added, removed),
                    decreases standard.len() - i,
                {
                    let ghost before = names_view(out@);
                    let name = &standard[i];
                    if !is_listed(exclude, name.as_str()) && !is_listed(extra, name.as_str()) {
                        out.push(name.clone());
                        assert(names_view(out@) =~= before + seq![name@]);
                        assert((before + seq![name@]) + kept_standard(all, i + 1, added, removed)
                            =~= before + (seq![name@] + kept_standard(all, i + 1, added, removed)));
                    }
                    i += 1;
                }
                assert(names_view(out@) + Seq::<Seq<char>>::empty() =~= names_view(out@));
                match extra {
                    Some(list) => {
                        let ghost kept = names_view(out@);
                        let mut k: usize = 0;
                        assert(names_view(list@).take(0) =~= Seq::<Seq<char>>::empty());
                        assert(kept + Seq::<Seq<char>>::empty() =~= kept);
                        while k < list.len()
                            invariant
                                k <= list.len(),
                                names_view(out@) == kept + names_view(list@).take(k as int),
                            decreases list.len() - k,
                        {
                            let ghost before = names_view(out@);
                            out.push(list[k].clone());
                            assert(names_view(out@) =~= before.push(list[k as int]@));
                            assert(names_view(list@).take(k + 1) =~= names_view(list@).take(
                                k as int,
                            ).push(list[k as int]@));
                            assert(names_view(out@) =~= kept + names_view(list@).take(k + 1));
                            k += 1;
                        }
                        assert(names_view(list@).take(list.len() as int) =~= names_view(list@));
                    },
                    None => {
                        assert(names_view(out@) + Seq::<Seq<char>>::empty() =~= names_view(out@));
                    },
                }
                out
            },
        }
    }
}

impl ImplTags {
    /// The tags that get an accessor, with the standard tags of `lfml_html5` as the
    /// standard ones: the tags that the bundle may be spread on, and no other.
    pub fn standard_accessors(&self) -> (out: Vec<String>)
        ensures
            exists|standard: Seq<Seq<char>>|
                {
                    &&& forall|name: Seq<char>|
                        #[trigger] is_html5_tag(name) <==> standard.contains(name)
                    &&& names_view(out@) == #[trigger] self@.accessors(standard)
                },
            forall|tag: Seq<char>| self@.allows(tag) <==> #[trigger] names_view(out@).contains(tag),
    {
        let standard = standard_tag_names();
        let out = self.accessors(&standard);
        proof {
            let all = names_view(standard@);
            assert forall|i: int| 0 <= i < all.len() implies is_html5_tag(#[trigger] all[i]) by {
                assert(all.contains(all[i]));
            }
            assert forall|tag: Seq<char>| self@.allows(tag) <==> #[trigger] names_view(
                out@,
            ).contains(tag) by {
                if self@.allows(tag) {
                    lemma_allowed_have_accessors(self@, all, tag);
                }
                if names_view(out@).contains(tag) {
                    lemma_accessors_are_allowed(self@, all, tag);
                }
            }
        }
        out
    }
}

/// A standard tag that is kept is one of the standard tags, and is not excluded.
pub proof fn lemma_kept_standard(
    standard: Seq<Seq<char>>,
    from: int,
    extra: Option<Seq<Seq<char>>>,
    exclude: Option<Seq<Seq<char>>>,
    tag: Seq<char>,
)
    requires
        0 <= from,
        kept_standard(standard, from, extra, exclude).contains(tag),
    ensures
        standard.contains(tag),
        !listed(exclude, tag),
    decreases standard.len() - from,
{
    if from < standard.len() {
        let rest = kept_standard(standard, from + 1, extra, exclude);
        let all = kept_standard(standard, from, extra, exclude);
        let i = choose|i: int| 0 <= i < all.len() && all[i] == tag;
        if listed(exclude, standard[from]) || listed(extra, standard[from]) {
            lemma_kept_standard(standard, from + 1, extra, exclude, tag);
        } else if i == 0 {
            assert(standard[from] == tag);
        } else {
            assert(rest[i - 1] == tag);
            lemma_kept_standard(standard, from + 1, extra, exclude, tag);
        }
    }
}

/// A standard tag at or behind the index `from` that is neither excluded nor named
/// among the extra ones is kept.
pub proof fn lemma_standard_is_kept(
    standard: Seq<Seq<char>>,
    from: int,
    extra: Option<Seq<Seq<char>>>,
    exclude: Option<Seq<Seq<char>>>,
    i: int,
)
    requires
        0 <= from <= i < standard.len(),
        !listed(exclude, standard[i]),
        !listed(extra, standard[i]),
    ensures
        kept_standard(standard, from, extra, exclude).contains(standard[i]),
    decreases standard.len() - from,
{
    let all = kept_standard(standard, from, extra, exclude);
    let rest = kept_standard(standard, from + 1, extra, exclude);
    if from == i {
        assert(all[0] == standard[i]);
    } else {
        lemma_standard_is_kept(standard, from + 1, extra, exclude, i);
        let k = choose|k: int| 0 <= k < rest.len() && rest[k] == standard[i];
        if listed(exclude, standard[from]) || listed(extra, standard[from]) {
        } else {
            assert(all[k + 1] == standard[i]);
        }
    }
}

/// Every tag that the bundle may be spread on gets an accessor, where the standard tags
/// handed in hold every standard tag.
pub proof fn lemma_allowed_have_accessors(
    tags: ImplTagsView,
    standard: Seq<Seq<char>>,
    tag: Seq<char>,
)
    requires
        forall|name: Seq<char>| #[trigger] is_html5_tag(name) ==> standard.contains(name),
        tags.allows(tag),
    ensures
        tags.accessors(standard).contains(tag),
{
    match tags {
        ImplTagsView::Only(_) => {},
        ImplTagsView::DefaultWith { extra, exclude } => {
            let kept = kept_standard(standard, 0, extra, exclude);
            let added = list_or_empty(extra);
            let all = kept + added;
            if listed(extra, tag) {
                let k = choose|k: int| 0 <= k < added.len() && added[k] == tag;
                assert(all[kept.len() + k] == tag);
            } else {
                assert(standard.contains(tag));
                let i = choose|i: int| 0 <= i < standard.len() && standard[i] == tag;
                lemma_standard_is_kept(standard, 0, extra, exclude, i);
                let k = choose|k: int| 0 <= k < kept.len() && kept[k] == tag;
                assert(all[k] == tag);
            }
        },
    }
}

/// Every tag that gets an accessor is a tag that the bundle may be spread on, where the
/// standard tags handed in are standard tags indeed.
pub proof fn lemma_accessors_are_allowed(
    tags: ImplTagsView,
    standard: Seq<Seq<char>>,
    tag: Seq<char>,
)
    requires
        forall|i: int| 0 <= i < standard.len() ==> is_html5_tag(#[trigger] standard[i]),
        tags.accessors(standard).contains(tag),
    ensures
        tags.allows(tag),
{
    match tags {
        ImplTagsView::Only(_) => {},
        ImplTagsView::DefaultWith { extra, exclude } => {
            let kept = kept_standard(standard, 0, extra, exclude);
            let added = list_or_empty(extra);
            let all = kept + added;
            let i = choose|i: int| 0 <= i < all.len() && all[i] == tag;
            if i < kept.len() {
                assert(kept[i] == tag);
                lemma_kept_standard(standard, 0, extra, exclude, tag);
            } else {
                assert(added[i - kept.len()] == tag);
            }
        },
    }
}

} // verus!
