//! XML.

use crate::exporters::Exporter;
use vstd::prelude::*;
use vstd::string::StringExecFns;

verus! {

/// Writes strings as an XML document: one root element that holds one
/// element for each string.
pub struct XmlExporter {
    root_element: String,
    item_element: String,
}

/// One step of writing the document.
pub enum XmlEvent {
    /// The declaration that opens the document.
    Declaration { version: String, encoding: String },
    /// The start tag of the named element.
    Start(String),
    /// Character data.
    Text(String),
    /// The end tag of the named element.
    End(String),
}

/// An event with its strings as sequences of characters.
pub ghost enum XmlEventView {
    Declaration { version: Seq<char>, encoding: Seq<char> },
    Start(Seq<char>),
    Text(Seq<char>),
    End(Seq<char>),
}

impl View for XmlEvent {
    type V = XmlEventView;

    open spec fn view(&self) -> XmlEventView {
        match self {
            XmlEvent::Declaration { version, encoding } => XmlEventView::Declaration {
                version: version@,
                encoding: encoding@,
            },
            XmlEvent::Start(name) => XmlEventView::Start(name@),
            XmlEvent::Text(text) => XmlEventView::Text(text@),
            XmlEvent::End(name) => XmlEventView::End(name@),
        }
    }
}

/// How one character is escaped: the five characters that XML reserves and
/// the carriage return as entities, every other character as itself.
pub open spec fn xml_escaped_char(c: char) -> Seq<char> {
    if c == '<' {
        "&lt;"@
    } else if c == '>' {
        "&gt;"@
    } else if c == '&' {
        "&amp;"@
    } else if c == '\'' {
        "&apos;"@
    } else if c == '"' {
        "&quot;"@
    } else if c == '\r' {
        "&#13;"@
    } else {
        seq![c]
    }
}

/// How a text is escaped: character by character.
pub open spec fn xml_escaped(text: Seq<char>) -> Seq<char>
    decreases text.len(),
{
    if text.len() == 0 {
        Seq::empty()
    } else {
        xml_escaped(text.drop_last()) + xml_escaped_char(text.last())
    }
}

/// Escapes a text for XML.
///
/// Trusted: calls `quick_xml::escape::escape`, which replaces `<`, `>`, `&`,
/// `'`, `"` and the carriage return by the entities listed in its
/// documentation and keeps every other character. The contract says exactly
/// that.
#[verifier::external_body]
fn xml_escape(text: &str) -> (r: String)
    ensures
        r@ == xml_escaped(text@),
{
    quick_xml::escape::escape(text).into_owned()
}

/// The events of the elements that hold `values`, each named `item`.
pub open spec fn item_events(item: Seq<char>, values: Seq<String>) -> Seq<XmlEventView>
    decreases values.len(),
{
    if values.len() == 0 {
        Seq::empty()
    } else {
        item_events(item, values.drop_last()) + seq![
            XmlEventView::Start(item),
            XmlEventView::Text(xml_escaped(values.last()@)),
            XmlEventView::End(item),
        ]
    }
}

/// The events of the whole document.
pub open spec fn document_events(root: Seq<char>, item: Seq<char>, values: Seq<String>) -> Seq<
    XmlEventView,
> {
    seq![
        XmlEventView::Declaration { version: "1.0"@, encoding: "UTF-8"@ },
        XmlEventView::Start(root),
    ] + item_events(item, values) + seq![XmlEventView::End(root)]
}

/// The events as sequences of characters.
pub open spec fn event_views(events: Seq<XmlEvent>) -> Seq<XmlEventView> {
    Seq::new(events.len(), |i: int| events[i]@)
}

impl XmlExporter {
    /// An exporter whose root element is `data` and whose items are `item`.
    pub fn new() -> (r: Self)
        ensures
            r.root_name() == "data"@,
            r.item_name() == "item"@,
    {
        Self { root_element: String::from_str("data"), item_element: String::from_str("item") }
    }

    /// An exporter with the given element names.
    pub fn with_elements(root_element: String, item_element: String) -> (r: Self)
        ensures
            r.root_name() == root_element@,
            r.item_name() == item_element@,
    {
        Self { root_element, item_element }
    }

    /// The name of the root element.
    pub closed spec fn root_name(&self) -> Seq<char> {
        self.root_element@
    }

    /// The name of the element that holds one string.
    pub closed spec fn item_name(&self) -> Seq<char> {
        self.item_element@
    }

    /// The name of the root element.
    pub fn root_element(&self) -> (r: &str)
        ensures
            r@ == self.root_name(),
    {
        self.root_element.as_str()
    }

    /// The name of the element that holds one string.
    pub fn item_element(&self) -> (r: &str)
        ensures
            r@ == self.item_name(),
    {
        self.item_element.as_str()
    }

    /// The events of the document that holds `data`, in the order in which
    /// they are written. The text of each item is escaped.
    pub fn events(&self, data: &[String]) -> (r: Vec<XmlEvent>)
        ensures
            event_views(r@) == document_events(self.root_name(), self.item_name(), data@),
    {
        let mut events: Vec<XmlEvent> = Vec::new();
        events.push(
            XmlEvent::Declaration {
                version: String::from_str("1.0"),
                encoding: String::from_str("UTF-8"),
            },
        );
        events.push(XmlEvent::Start(self.root_element.clone()));
        let ghost head = event_views(events@);
        let mut at: usize = 0;
        proof {
            assert(head =~= seq![
                XmlEventView::Declaration { version: "1.0"@, encoding: "UTF-8"@ },
                XmlEventView::Start(self.root_name()),
            ]);
            assert(event_views(events@) =~= head + item_events(
                self.item_name(),
                data@.subrange(0, 0),
            ));
        }
        while at < data.len()
            invariant
                at <= data.len(),
                event_views(events@) == head + item_events(
                    self.item_name(),
                    data@.subrange(0, at as int),
                ),
            decreases data.len() - at,
        {
            let ghost so_far = event_views(events@);
            events.push(XmlEvent::Start(self.item_element.clone()));
            events.push(XmlEvent::Text(xml_escape(data[at].as_str())));
            events.push(XmlEvent::End(self.item_element.clone()));
            proof {
                let longer = data@.subrange(0, at + 1);
                assert(longer.drop_last() =~= data@.subrange(0, at as int));
                assert(longer.last() == data@[at as int]);
                assert(event_views(events@) =~= so_far + seq![
                    XmlEventView::Start(self.item_name()),
                    XmlEventView::Text(xml_escaped(data@[at as int]@)),
                    XmlEventView::End(self.item_name()),
                ]);
            }
            at = at + 1;
        }
        proof {
            assert(data@.subrange(0, data.len() as int) =~= data@);
        }
        let ghost body = event_views(events@);
        events.push(XmlEvent::End(self.root_element.clone()));
        proof {
            assert(event_views(events@) =~= body + seq![XmlEventView::End(self.root_name())]);
        }
        events
    }
}

impl Default for XmlExporter {
    fn default() -> (r: Self)
        ensures
            r.root_name() == "data"@,
            r.item_name() == "item"@,
    {
        Self::new()
    }
}

impl Exporter for XmlExporter {
    open spec fn name(&self) -> Seq<char> {
        "XML"@
    }

    fn format_name(&self) -> (r: &'static str) {
        "XML"
    }
}

} // verus!
