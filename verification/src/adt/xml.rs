//! Reading the XML answers of the ADT endpoints: package listings, quick-search
//! results and usage references.  `quick_xml` tokenises the text; which elements
//! count and what their attributes mean is decided here.
use vstd::prelude::*;
use quick_xml::events::Event;
use crate::adt::http::{kind_of_token, map_kind, opt_view};
use crate::adt::types::{AbapObjectKind, AdtSearchHit, PackageMember, WhereUsedHit};
use crate::text::{
    contains, contains_seq, ends_with, ends_with_seq, first_from, first_index, lemma_first_from,
    owned, str_eq,
};

verus! {

#[verifier::external_type_specification]
#[verifier::external_body]
#[verifier::reject_recursive_types(R)]
pub struct ExXmlReader<R>(quick_xml::Reader<R>);

/// A start or empty-element tag: its qualified name and its attributes, each key
/// and (unescaped) value as text.
pub struct XmlTag {
    pub name: String,
    pub attrs: Vec<(String, String)>,
}

/// One event of an XML document that the parsers read.
pub enum XmlEvent {
    /// A start or empty-element tag.
    Tag(XmlTag),
    /// Character data, unescaped.
    Text(String),
    /// An end tag, by its qualified name.
    End(String),
}

/// What one read from the XML reader gives.
pub enum XmlStep {
    /// A start or empty-element tag.
    Tag(XmlTag),
    /// Character data, unescaped.
    Text(String),
    /// An end tag, by its qualified name.
    End(String),
    /// A comment, declaration or other event the parsers skip.
    Other,
    /// The end of the input, or the first syntax error.
    Done,
}

/// What the `n`-th call (counting from 0) of `Reader::read_event`, on a reader that
/// `Reader::from_str(text)` made, gives as `next_step` converts it.  The reader's
/// configuration is fixed, so this depends on the text and the count alone.
pub uninterp spec fn xml_step_at(text: Seq<char>, n: nat) -> XmlStep;

/// A reader over `text`, with the number of events read from it so far (a count
/// that only `xml_reader` sets and only `next_step` advances).
struct XmlCursor<'a> {
    reader: quick_xml::Reader<&'a [u8]>,
    text: &'a str,
    read: Ghost<nat>,
}

/// Calls `quick_xml::Reader::from_str`: a fresh reader over `xml`, nothing read yet.
#[verifier::external_body]
fn xml_reader<'a>(xml: &'a str) -> (c: XmlCursor<'a>)
    ensures
        c.text == xml,
        c.read@ == 0,
{
    XmlCursor { reader: quick_xml::Reader::from_str(xml), text: xml, read: Ghost(0) }
}

/// Calls `Reader::read_event` on the cursor's reader, which moves it past the event
/// read: the result is the event at the cursor's count (`xml_step_at`), and the count
/// goes up by one.  A start or empty tag is returned with its name
/// and the attributes that parse, each value unescaped (empty where unescaping
/// fails); text is returned unescaped (empty where that fails), an end tag by its
/// name; the end of input or an error is `Done`.
#[verifier::external_body]
fn next_step<'a>(cursor: &mut XmlCursor<'a>) -> (s: XmlStep)
    ensures
        s == xml_step_at(old(cursor).text@, old(cursor).read@),
        final(cursor).text == old(cursor).text,
        final(cursor).read@ == old(cursor).read@ + 1,
{
    match cursor.reader.read_event() {
        Ok(Event::Start(e)) | Ok(Event::Empty(e)) => XmlStep::Tag(XmlTag {
            name: String::from_utf8_lossy(e.name().as_ref()).into_owned(),
            attrs: e.attributes().flatten().map(|a| (
                String::from_utf8_lossy(a.key.0).into_owned(),
                a.unescape_value().unwrap_or_default().into_owned(),
            )).collect(),
        }),
        Ok(Event::Text(t)) => XmlStep::Text(t.unescape().unwrap_or_default().into_owned()),
        Ok(Event::End(e)) => XmlStep::End(String::from_utf8_lossy(e.name().as_ref()).into_owned()),
        Ok(Event::Eof) | Err(_) => XmlStep::Done,
        _ => XmlStep::Other,
    }
}

/// The events from read `n` on, with at most `calls` reads left: tags, text and end
/// tags in order, other events skipped, stopping at `Done` or when the reads run out.
pub open spec fn events_from(text: Seq<char>, n: nat, calls: nat) -> Seq<XmlEvent>
    decreases calls,
{
    if calls == 0 {
        Seq::empty()
    } else {
        match xml_step_at(text, n) {
            XmlStep::Tag(t) => seq![XmlEvent::Tag(t)] + events_from(text, n + 1, (calls - 1) as nat),
            XmlStep::Text(x) => seq![XmlEvent::Text(x)] + events_from(text, n + 1, (calls - 1) as nat),
            XmlStep::End(e) => seq![XmlEvent::End(e)] + events_from(text, n + 1, (calls - 1) as nat),
            XmlStep::Other => events_from(text, n + 1, (calls - 1) as nat),
            XmlStep::Done => Seq::empty(),
        }
    }
}

/// The events of `xml`: those of its reads, one per input byte and one more.
pub open spec fn xml_events(xml: &str) -> Seq<XmlEvent> {
    events_from(xml@, 0, xml.len() as nat + 1)
}

/// The events of `xml` in document order, up to its end or first syntax error.
/// The reader is asked at most once per input byte and once more, which covers
/// every document since each event but the end consumes at least one byte.
pub fn read_events(xml: &str) -> (r: Vec<XmlEvent>)
    ensures
        r@ == xml_events(xml),
{
    let mut cursor = xml_reader(xml);
    let mut out: Vec<XmlEvent> = Vec::new();
    let n: usize = xml.len();
    let mut left: usize = n;
    assert(out@ + events_from(xml@, 0, n as nat + 1) =~= xml_events(xml));
    loop
        invariant_except_break
            cursor.text@ == xml@,
            n == xml.len(),
            cursor.read@ + left == n,
            out@ + events_from(xml@, cursor.read@, left as nat + 1) == xml_events(xml),
        ensures
            out@ == xml_events(xml),
        decreases left,
    {
        let ghost before = out@;
        let ghost k = cursor.read@;
        let step = next_step(&mut cursor);
        match step {
            XmlStep::Tag(t) => {
                out.push(XmlEvent::Tag(t));
                assert(out@ + events_from(xml@, k + 1, left as nat) =~= before + events_from(xml@, k, left as nat + 1));
            },
            XmlStep::Text(x) => {
                out.push(XmlEvent::Text(x));
                assert(out@ + events_from(xml@, k + 1, left as nat) =~= before + events_from(xml@, k, left as nat + 1));
            },
            XmlStep::End(e) => {
                out.push(XmlEvent::End(e));
                assert(out@ + events_from(xml@, k + 1, left as nat) =~= before + events_from(xml@, k, left as nat + 1));
            },
            XmlStep::Other => {
                assert(out@ + events_from(xml@, k + 1, left as nat) =~= before + events_from(xml@, k, left as nat + 1));
            },
            XmlStep::Done => {
                assert(out@ =~= before + events_from(xml@, k, left as nat + 1));
                assert(out@ =~= out@ + events_from(xml@, k, left as nat + 1));
                break;
            },
        }
        if left == 0 {
            assert(out@ =~= out@ + events_from(xml@, k + 1, 0));
            assert(out@ == xml_events(xml));
            break;
        }
        left = left - 1;
    }
    out
}

/// The tags among `events`, in order.
pub open spec fn tags_in(events: Seq<XmlEvent>) -> Seq<XmlTag>
    decreases events.len(),
{
    if events.len() == 0 {
        Seq::empty()
    } else {
        let rest = tags_in(events.drop_last());
        match events.last() {
            XmlEvent::Tag(t) => rest.push(t),
            _ => rest,
        }
    }
}

/// The tags among `events`, in order.
pub fn tags_only(events: Vec<XmlEvent>) -> (r: Vec<XmlTag>)
    ensures
        r@ == tags_in(events@),
{
    let ghost all = events@;
    let mut src = events;
    let mut out: Vec<XmlTag> = Vec::new();
    let n = src.len();
    assert(all.take(0) =~= Seq::<XmlEvent>::empty());
    assert(all.skip(0) =~= all);
    while src.len() > 0
        invariant
            n == all.len(),
            src.len() <= n,
            src@ == all.skip(n - src.len()),
            out@ == tags_in(all.take(n - src.len())),
        decreases src.len(),
    {
        let ghost i = n - src.len();
        let e = src.remove(0);
        assert(e == all[i]);
        assert(src@ =~= all.skip(i + 1));
        assert(all.take(i + 1).drop_last() =~= all.take(i));
        assert(all.take(i + 1).last() == e);
        match e {
            XmlEvent::Tag(t) => out.push(t),
            _ => {},
        }
    }
    assert(all.take(n as int) =~= all);
    out
}

/// The tags of `xml` in document order, up to its end or first syntax error.
pub fn read_tags(xml: &str) -> (r: Vec<XmlTag>)
    ensures
        r@ == tags_in(xml_events(xml)),
{
    tags_only(read_events(xml))
}

// ---------------------------------------------------------------------------
// attributes
// ---------------------------------------------------------------------------

/// The texts of attribute pairs.
pub open spec fn attr_views(v: Seq<(String, String)>) -> Seq<(Seq<char>, Seq<char>)> {
    v.map_values(|a: (String, String)| (a.0@, a.1@))
}

/// The texts of string slices.
pub open spec fn str_views(v: Seq<&str>) -> Seq<Seq<char>> {
    v.map_values(|p: &str| p@)
}

/// The texts of optional strings.
pub open spec fn opt_views(v: Seq<Option<String>>) -> Seq<Option<Seq<char>>> {
    v.map_values(|o: Option<String>| opt_view(o))
}

/// The slot an attribute key fills: the first pattern the key contains, or -1.
pub open spec fn slot_of(key: Seq<char>, pats: Seq<Seq<char>>) -> int {
    first_index(pats, |p: Seq<char>| contains_seq(key, p))
}

/// For each pattern, the value of the last attribute whose key fills its slot.
pub open spec fn scan(attrs: Seq<(Seq<char>, Seq<char>)>, pats: Seq<Seq<char>>) -> Seq<Option<Seq<char>>>
    decreases attrs.len(),
{
    if attrs.len() == 0 {
        Seq::new(pats.len(), |j: int| None)
    } else {
        let prev = scan(attrs.drop_last(), pats);
        let j = slot_of(attrs.last().0, pats);
        if j >= 0 { prev.update(j, Some(attrs.last().1)) } else { prev }
    }
}

proof fn lemma_scan_len(attrs: Seq<(Seq<char>, Seq<char>)>, pats: Seq<Seq<char>>)
    ensures
        scan(attrs, pats).len() == pats.len(),
    decreases attrs.len(),
{
    if attrs.len() > 0 {
        lemma_scan_len(attrs.drop_last(), pats);
        lemma_first_from(pats, |p: Seq<char>| contains_seq(attrs.last().0, p), 0);
    }
}

fn slot(key: &str, pats: &Vec<&str>) -> (r: Option<usize>)
    ensures
        match r {
            Some(j) => j == slot_of(key@, str_views(pats@)) && j < pats@.len(),
            None => slot_of(key@, str_views(pats@)) == -1,
        },
{
    let ghost pv = str_views(pats@);
    let ghost f = |p: Seq<char>| contains_seq(key@, p);
    let mut j: usize = 0;
    while j < pats.len()
        invariant
            j <= pats@.len(),
            pv == str_views(pats@),
            f == (|p: Seq<char>| contains_seq(key@, p)),
            first_from(pv, f, 0) == first_from(pv, f, j as int),
        decreases pats@.len() - j,
    {
        if contains(key, pats[j]) {
            assert(f(pv[j as int]));
            return Some(j);
        }
        j = j + 1;
    }
    None
}

/// For each pattern, the value of the last attribute whose key fills its slot.
pub fn scan_attrs(attrs: &Vec<(String, String)>, pats: &Vec<&str>) -> (r: Vec<Option<String>>)
    ensures
        opt_views(r@) == scan(attr_views(attrs@), str_views(pats@)),
{
    let ghost pv = str_views(pats@);
    let mut r: Vec<Option<String>> = Vec::new();
    let mut j: usize = 0;
    while j < pats.len()
        invariant
            j <= pats@.len(),
            r@.len() == j,
            forall|k: int| 0 <= k < j ==> r@[k] is None,
        decreases pats@.len() - j,
    {
        r.push(None);
        j = j + 1;
    }
    assert(opt_views(r@) =~= scan(attr_views(attrs@).take(0), pv));
    let mut i: usize = 0;
    while i < attrs.len()
        invariant
            i <= attrs@.len(),
            pv == str_views(pats@),
            opt_views(r@) == scan(attr_views(attrs@).take(i as int), pv),
        decreases attrs@.len() - i,
    {
        proof {
            lemma_scan_len(attr_views(attrs@).take(i as int), pv);
            assert(attr_views(attrs@).take(i + 1).drop_last() =~= attr_views(attrs@).take(i as int));
        }
        let a = &attrs[i];
        match slot(a.0.as_str(), pats) {
            Some(k) => {
                r.set(k, Some(a.1.clone()));
                assert(opt_views(r@) =~= scan(attr_views(attrs@).take(i + 1), pv));
            },
            None => {
                assert(opt_views(r@) =~= scan(attr_views(attrs@).take(i + 1), pv));
            },
        }
        i = i + 1;
    }
    assert(attr_views(attrs@).take(attrs@.len() as int) =~= attr_views(attrs@));
    r
}

// ---------------------------------------------------------------------------
// elements
// ---------------------------------------------------------------------------

/// The text of a filled slot, empty when unfilled.
pub open spec fn filled(o: Option<Seq<char>>) -> Seq<char> {
    match o {
        Some(v) => v,
        None => Seq::empty(),
    }
}

fn take_text(o: &Option<String>) -> (r: String)
    ensures
        r@ == filled(opt_view(*o)),
{
    match o {
        Some(v) => v.clone(),
        None => String::new(),
    }
}

fn take_opt(o: &Option<String>) -> (r: Option<String>)
    ensures
        opt_view(r) == opt_view(*o),
{
    match o {
        Some(v) => Some(v.clone()),
        None => None,
    }
}

/// The package member a `nodestructure` tag describes: an `OBJECT` or
/// `adtcore:objectReference` element with a non-empty name.
pub open spec fn member_of(tag: Seq<char>, attrs: Seq<(Seq<char>, Seq<char>)>) -> Option<
    (Seq<char>, AbapObjectKind, Option<Seq<char>>),
> {
    let s = scan(attrs, seq!["name"@, "description"@, "type"@]);
    if (tag == "OBJECT"@ || tag == "adtcore:objectReference"@) && filled(s[0]).len() > 0 {
        Some((filled(s[0]), kind_of_token(filled(s[2])), s[1]))
    } else {
        None
    }
}

/// The text of a package member.
pub open spec fn member_view(m: PackageMember) -> (Seq<char>, AbapObjectKind, Option<Seq<char>>) {
    (m.name@, m.kind, opt_view(m.description))
}

/// The package member a tag describes, if any.
pub fn member_from_tag(tag: &XmlTag) -> (r: Option<PackageMember>)
    ensures
        match r {
            Some(m) => member_of(tag.name@, attr_views(tag.attrs@)) == Some(member_view(m)),
            None => member_of(tag.name@, attr_views(tag.attrs@)) is None,
        },
{
    let mut pats: Vec<&str> = Vec::new();
    pats.push("name");
    pats.push("description");
    pats.push("type");
    let s = scan_attrs(&tag.attrs, &pats);
    proof {
        lemma_scan_len(attr_views(tag.attrs@), str_views(pats@));
        assert(str_views(pats@) =~= seq!["name"@, "description"@, "type"@]);
    }
    if !(str_eq(tag.name.as_str(), "OBJECT") || str_eq(tag.name.as_str(), "adtcore:objectReference")) {
        return None;
    }
    assert(opt_views(s@)[0] == opt_view(s@[0]));
    let name = take_text(&s[0]);
    if name.unicode_len() == 0 {
        return None;
    }
    assert(opt_views(s@)[1] == opt_view(s@[1]));
    assert(opt_views(s@)[2] == opt_view(s@[2]));
    let kind_token = take_text(&s[2]);
    let kind = map_kind(kind_token.as_str());
    Some(PackageMember { name, kind, description: take_opt(&s[1]) })
}

/// The element of a `nodestructure` answer that describes one object by its child
/// elements `OBJECT_NAME`, `OBJECT_TYPE` and `DESCRIPTION`.
pub open spec fn node_element() -> Seq<char> {
    "SEU_ADT_REPOSITORY_OBJ_NODE"@
}

/// Where reading a listing stands: inside a node element or not, the child element
/// whose text is being read, and the name, type and description read so far.
pub struct NodeRead {
    pub inside: bool,
    pub field: Seq<char>,
    pub name: Seq<char>,
    pub kind: Seq<char>,
    pub desc: Option<Seq<char>>,
}

/// Nothing read yet, inside a node element or not.
pub open spec fn fresh_node(inside: bool) -> NodeRead {
    NodeRead { inside, field: Seq::empty(), name: Seq::empty(), kind: Seq::empty(), desc: None }
}

/// The reading state after one more event.
pub open spec fn node_next(st: NodeRead, ev: XmlEvent) -> NodeRead {
    match ev {
        XmlEvent::Tag(t) => if t.name@ == node_element() {
            fresh_node(true)
        } else if st.inside {
            NodeRead { inside: true, field: t.name@, name: st.name, kind: st.kind, desc: st.desc }
        } else {
            st
        },
        XmlEvent::Text(x) => if !st.inside {
            st
        } else if st.field == "OBJECT_NAME"@ {
            NodeRead { inside: true, field: st.field, name: x@, kind: st.kind, desc: st.desc }
        } else if st.field == "OBJECT_TYPE"@ {
            NodeRead { inside: true, field: st.field, name: st.name, kind: x@, desc: st.desc }
        } else if st.field == "DESCRIPTION"@ {
            NodeRead { inside: true, field: st.field, name: st.name, kind: st.kind, desc: Some(x@) }
        } else {
            st
        },
        XmlEvent::End(n) => if st.inside && n@ == node_element() {
            fresh_node(false)
        } else if st.inside {
            NodeRead { inside: true, field: Seq::empty(), name: st.name, kind: st.kind, desc: st.desc }
        } else {
            st
        },
    }
}

/// The member one event completes: a tag in the attribute form, or the end of a
/// node element whose name was read.
pub open spec fn node_member(st: NodeRead, ev: XmlEvent) -> Option<(Seq<char>, AbapObjectKind, Option<Seq<char>>)> {
    match ev {
        XmlEvent::Tag(t) => member_of(t.name@, attr_views(t.attrs@)),
        XmlEvent::Text(_) => None,
        XmlEvent::End(n) => if st.inside && n@ == node_element() && st.name.len() > 0 {
            Some((st.name, kind_of_token(st.kind), st.desc))
        } else {
            None
        },
    }
}

/// The reading state after `events`.
pub open spec fn node_state(events: Seq<XmlEvent>) -> NodeRead
    decreases events.len(),
{
    if events.len() == 0 {
        fresh_node(false)
    } else {
        node_next(node_state(events.drop_last()), events.last())
    }
}

/// The package members `events` describe, in document order.
pub open spec fn members_in(events: Seq<XmlEvent>) -> Seq<(Seq<char>, AbapObjectKind, Option<Seq<char>>)>
    decreases events.len(),
{
    if events.len() == 0 {
        Seq::empty()
    } else {
        let rest = members_in(events.drop_last());
        match node_member(node_state(events.drop_last()), events.last()) {
            Some(m) => rest.push(m),
            None => rest,
        }
    }
}

/// The members a package listing's events describe, in either form.
pub fn members_from_events(events: &Vec<XmlEvent>) -> (r: Vec<PackageMember>)
    ensures
        r@.map_values(|m: PackageMember| member_view(m)) == members_in(events@),
{
    let mut r: Vec<PackageMember> = Vec::new();
    let mut inside = false;
    let mut field = String::new();
    let mut name = String::new();
    let mut kind = String::new();
    let mut desc: Option<String> = None;
    let mut i: usize = 0;
    while i < events.len()
        invariant
            i <= events@.len(),
            r@.map_values(|m: PackageMember| member_view(m)) == members_in(events@.take(i as int)),
            (NodeRead { inside, field: field@, name: name@, kind: kind@, desc: opt_view(desc) }) == node_state(
                events@.take(i as int),
            ),
        decreases events@.len() - i,
    {
        let ghost pre = events@.take(i as int);
        assert(events@.take(i + 1).drop_last() =~= pre);
        assert(events@.take(i + 1).last() == events@[i as int]);
        let ghost before = r@;
        match &events[i] {
            XmlEvent::Tag(t) => {
                match member_from_tag(t) {
                    Some(m) => {
                        r.push(m);
                        assert(r@.map_values(|m: PackageMember| member_view(m)) =~= before.map_values(
                            |m: PackageMember| member_view(m),
                        ).push(member_view(r@.last())));
                    },
                    None => {},
                }
                if str_eq(t.name.as_str(), "SEU_ADT_REPOSITORY_OBJ_NODE") {
                    inside = true;
                    field = String::new();
                    name = String::new();
                    kind = String::new();
                    desc = None;
                } else if inside {
                    field = t.name.clone();
                }
            },
            XmlEvent::Text(x) => {
                if inside {
                    if str_eq(field.as_str(), "OBJECT_NAME") {
                        name = x.clone();
                    } else if str_eq(field.as_str(), "OBJECT_TYPE") {
                        kind = x.clone();
                    } else if str_eq(field.as_str(), "DESCRIPTION") {
                        desc = Some(x.clone());
                    }
                }
            },
            XmlEvent::End(n) => {
                if inside && str_eq(n.as_str(), "SEU_ADT_REPOSITORY_OBJ_NODE") {
                    if name.unicode_len() > 0 {
                        let k = map_kind(kind.as_str());
                        r.push(PackageMember { name: name.clone(), kind: k, description: take_opt(&desc) });
                        assert(r@.map_values(|m: PackageMember| member_view(m)) =~= before.map_values(
                            |m: PackageMember| member_view(m),
                        ).push(member_view(r@.last())));
                    }
                    inside = false;
                    field = String::new();
                    name = String::new();
                    kind = String::new();
                    desc = None;
                } else if inside {
                    field = String::new();
                }
            },
        }
        i = i + 1;
    }
    assert(events@.take(events@.len() as int) =~= events@);
    r
}

/// The members listed in a `nodestructure` answer, in either form; each has a
/// non-empty name.
pub fn parse_nodestructure(xml: &str) -> (r: Vec<PackageMember>)
    ensures
        r@.map_values(|m: PackageMember| member_view(m)) == members_in(xml_events(xml)),
        forall|i: int| 0 <= i < r@.len() ==> (#[trigger] r@[i]).name@.len() > 0,
{
    let events = read_events(xml);
    let r = members_from_events(&events);
    proof {
        assert forall|i: int| 0 <= i < r@.len() implies (#[trigger] r@[i]).name@.len() > 0 by {
            lemma_members_named(events@);
            assert(r@.map_values(|m: PackageMember| member_view(m))[i] == member_view(r@[i]));
        }
    }
    r
}

proof fn lemma_members_named(events: Seq<XmlEvent>)
    ensures
        forall|i: int| 0 <= i < members_in(events).len() ==> (#[trigger] members_in(events)[i]).0.len() > 0,
    decreases events.len(),
{
    if events.len() > 0 {
        lemma_members_named(events.drop_last());
        let rest = members_in(events.drop_last());
        match node_member(node_state(events.drop_last()), events.last()) {
            Some(m) => {
                match events.last() {
                    XmlEvent::Tag(t) => {
                        let s = scan(attr_views(t.attrs@), seq!["name"@, "description"@, "type"@]);
                        assert(m.0 == filled(s[0]));
                    },
                    _ => {},
                }
                assert forall|i: int| 0 <= i < members_in(events).len() implies (
                #[trigger] members_in(events)[i]).0.len() > 0 by {
                    if i < rest.len() {
                        assert(members_in(events)[i] == rest[i]);
                    }
                }
            },
            None => {},
        }
    }
}

/// The search hit a quick-search tag describes: an element whose name ends in
/// `objectReference`, with a non-empty name; every such hit scores 1.
pub open spec fn search_hit_of(tag: Seq<char>, attrs: Seq<(Seq<char>, Seq<char>)>) -> Option<
    (Seq<char>, AbapObjectKind, Option<Seq<char>>, Option<Seq<char>>),
> {
    let s = scan(attrs, seq!["name"@, "type"@, "description"@, "packageName"@]);
    if ends_with_seq(tag, "objectReference"@) && filled(s[0]).len() > 0 {
        Some((filled(s[0]), kind_of_token(filled(s[1])), s[2], s[3]))
    } else {
        None
    }
}

/// The text of a search hit.
pub open spec fn hit_view(h: AdtSearchHit) -> (Seq<char>, AbapObjectKind, Option<Seq<char>>, Option<Seq<char>>) {
    (h.name@, h.kind, opt_view(h.description), opt_view(h.package))
}

/// The search hits the tags describe, in document order.
pub open spec fn hits_of(tags: Seq<XmlTag>) -> Seq<(Seq<char>, AbapObjectKind, Option<Seq<char>>, Option<Seq<char>>)>
    decreases tags.len(),
{
    if tags.len() == 0 {
        Seq::empty()
    } else {
        let rest = hits_of(tags.drop_last());
        match search_hit_of(tags.last().name@, attr_views(tags.last().attrs@)) {
            Some(h) => rest.push(h),
            None => rest,
        }
    }
}

/// The search hit a tag describes, if any.
pub fn search_hit_from_tag(tag: &XmlTag) -> (r: Option<AdtSearchHit>)
    ensures
        match r {
            Some(h) => search_hit_of(tag.name@, attr_views(tag.attrs@)) == Some(hit_view(h))
                && h.score == 1,
            None => search_hit_of(tag.name@, attr_views(tag.attrs@)) is None,
        },
{
    let mut pats: Vec<&str> = Vec::new();
    pats.push("name");
    pats.push("type");
    pats.push("description");
    pats.push("packageName");
    let s = scan_attrs(&tag.attrs, &pats);
    proof {
        lemma_scan_len(attr_views(tag.attrs@), str_views(pats@));
        assert(str_views(pats@) =~= seq!["name"@, "type"@, "description"@, "packageName"@]);
    }
    if !ends_with(tag.name.as_str(), "objectReference") {
        return None;
    }
    assert(opt_views(s@)[0] == opt_view(s@[0]));
    let name = take_text(&s[0]);
    if name.unicode_len() == 0 {
        return None;
    }
    assert(opt_views(s@)[1] == opt_view(s@[1]));
    assert(opt_views(s@)[2] == opt_view(s@[2]));
    assert(opt_views(s@)[3] == opt_view(s@[3]));
    let kind_token = take_text(&s[1]);
    let kind = map_kind(kind_token.as_str());
    Some(AdtSearchHit { name, kind, description: take_opt(&s[2]), package: take_opt(&s[3]), score: 1 })
}

/// The hits of a quick-search answer.
pub fn hits_from_tags(tags: &Vec<XmlTag>) -> (r: Vec<AdtSearchHit>)
    ensures
        r@.map_values(|h: AdtSearchHit| hit_view(h)) == hits_of(tags@),
        forall|i: int| 0 <= i < r@.len() ==> (#[trigger] r@[i]).score == 1,
{
    let mut r: Vec<AdtSearchHit> = Vec::new();
    let mut i: usize = 0;
    while i < tags.len()
        invariant
            i <= tags@.len(),
            r@.map_values(|h: AdtSearchHit| hit_view(h)) == hits_of(tags@.take(i as int)),
            forall|k: int| 0 <= k < r@.len() ==> (#[trigger] r@[k]).score == 1,
        decreases tags@.len() - i,
    {
        assert(tags@.take(i + 1).drop_last() =~= tags@.take(i as int));
        match search_hit_from_tag(&tags[i]) {
            Some(h) => {
                let ghost before = r@;
                r.push(h);
                assert(r@.map_values(|h: AdtSearchHit| hit_view(h)) =~= before.map_values(
                    |h: AdtSearchHit| hit_view(h),
                ).push(hit_view(r@.last())));
            },
            None => {},
        }
        i = i + 1;
    }
    assert(tags@.take(tags@.len() as int) =~= tags@);
    r
}

/// The hits of a quick-search answer, each scoring 1.
pub fn parse_search_results(xml: &str) -> (r: Vec<AdtSearchHit>)
    ensures
        r@.map_values(|h: AdtSearchHit| hit_view(h)) == hits_of(tags_in(xml_events(xml))),
        forall|i: int| 0 <= i < r@.len() ==> (#[trigger] r@[i]).score == 1,
{
    let tags = read_tags(xml);
    hits_from_tags(&tags)
}

/// The use a usage-references tag describes: an element whose name ends in
/// `referencedObject` or `objectReference`, with a non-empty name; the location is
/// its URI.
pub open spec fn usage_of(tag: Seq<char>, attrs: Seq<(Seq<char>, Seq<char>)>) -> Option<
    (Seq<char>, AbapObjectKind, Seq<char>),
> {
    let s = scan(attrs, seq!["name"@, "type"@, "uri"@]);
    if (ends_with_seq(tag, "referencedObject"@) || ends_with_seq(tag, "objectReference"@))
        && filled(s[0]).len() > 0 {
        Some((filled(s[0]), kind_of_token(filled(s[1])), filled(s[2])))
    } else {
        None
    }
}

/// The text of a use; every use read from XML is a plain `reference`.
pub open spec fn usage_view(h: WhereUsedHit) -> (Seq<char>, AbapObjectKind, Seq<char>) {
    (h.object@, h.kind, h.location@)
}

/// The uses the tags describe, in document order.
pub open spec fn usages_of(tags: Seq<XmlTag>) -> Seq<(Seq<char>, AbapObjectKind, Seq<char>)>
    decreases tags.len(),
{
    if tags.len() == 0 {
        Seq::empty()
    } else {
        let rest = usages_of(tags.drop_last());
        match usage_of(tags.last().name@, attr_views(tags.last().attrs@)) {
            Some(u) => rest.push(u),
            None => rest,
        }
    }
}

/// The use a tag describes, if any.
pub fn usage_from_tag(tag: &XmlTag) -> (r: Option<WhereUsedHit>)
    ensures
        match r {
            Some(h) => usage_of(tag.name@, attr_views(tag.attrs@)) == Some(usage_view(h))
                && h.usage@ == "reference"@,
            None => usage_of(tag.name@, attr_views(tag.attrs@)) is None,
        },
{
    let mut pats: Vec<&str> = Vec::new();
    pats.push("name");
    pats.push("type");
    pats.push("uri");
    let s = scan_attrs(&tag.attrs, &pats);
    proof {
        lemma_scan_len(attr_views(tag.attrs@), str_views(pats@));
        assert(str_views(pats@) =~= seq!["name"@, "type"@, "uri"@]);
    }
    if !(ends_with(tag.name.as_str(), "referencedObject") || ends_with(tag.name.as_str(), "objectReference")) {
        return None;
    }
    assert(opt_views(s@)[0] == opt_view(s@[0]));
    let name = take_text(&s[0]);
    if name.unicode_len() == 0 {
        return None;
    }
    assert(opt_views(s@)[1] == opt_view(s@[1]));
    assert(opt_views(s@)[2] == opt_view(s@[2]));
    let kind_token = take_text(&s[1]);
    let kind = map_kind(kind_token.as_str());
    Some(WhereUsedHit { object: name, kind, location: take_text(&s[2]), usage: String::from_str("reference") })
}

/// The uses listed in a usage-references answer.
pub fn usages_from_tags(tags: &Vec<XmlTag>) -> (r: Vec<WhereUsedHit>)
    ensures
        r@.map_values(|h: WhereUsedHit| usage_view(h)) == usages_of(tags@),
        forall|i: int| 0 <= i < r@.len() ==> (#[trigger] r@[i]).usage@ == "reference"@,
{
    let mut r: Vec<WhereUsedHit> = Vec::new();
    let mut i: usize = 0;
    while i < tags.len()
        invariant
            i <= tags@.len(),
            r@.map_values(|h: WhereUsedHit| usage_view(h)) == usages_of(tags@.take(i as int)),
            forall|k: int| 0 <= k < r@.len() ==> (#[trigger] r@[k]).usage@ == "reference"@,
        decreases tags@.len() - i,
    {
        assert(tags@.take(i + 1).drop_last() =~= tags@.take(i as int));
        match usage_from_tag(&tags[i]) {
            Some(h) => {
                let ghost before = r@;
                r.push(h);
                assert(r@.map_values(|h: WhereUsedHit| usage_view(h)) =~= before.map_values(
                    |h: WhereUsedHit| usage_view(h),
                ).push(usage_view(r@.last())));
            },
            None => {},
        }
        i = i + 1;
    }
    assert(tags@.take(tags@.len() as int) =~= tags@);
    r
}

/// The uses listed in a usage-references answer, each a plain `reference`.
pub fn parse_usage_references(xml: &str) -> (r: Vec<WhereUsedHit>)
    ensures
        r@.map_values(|h: WhereUsedHit| usage_view(h)) == usages_of(tags_in(xml_events(xml))),
        forall|i: int| 0 <= i < r@.len() ==> (#[trigger] r@[i]).usage@ == "reference"@,
{
    let tags = read_tags(xml);
    usages_from_tags(&tags)
}

/// A data preview answer yields no rows yet: column metadata and row data are
/// not read.
pub fn parse_data_preview(text: &str) -> (r: Vec<crate::adt::types::TableRow>)
    ensures
        r@.len() == 0,
{
    Vec::new()
}

} // verus!
