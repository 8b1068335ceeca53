//! Meta tag extraction.
//!
//! A fetched page's `<meta>` elements are read through an outside HTML
//! parser, which hands back one attribute bag per element in document
//! order.  The verified code turns each bag into a [`Meta`] record by
//! looking up the six attributes of interest; whichever are present
//! are kept, the rest stay absent.  Malformed HTML never aborts
//! extraction: the parser degrades gracefully and yields whatever
//! elements it can locate.

use vstd::prelude::*;

verus! {

/// Data contained in one `<meta>` tag: whichever of the six attributes
/// of interest were present on the element.
#[derive(Debug, Default, Clone, PartialEq)]
pub struct Meta {
    /// A non-standard attribute used primarily with the Open Graph
    /// protocol.
    pub property: Option<String>,
    /// Metadata name.
    pub name: Option<String>,
    /// Metadata value for the `http-equiv` or `name` attribute.
    pub content: Option<String>,
    /// Document's character encoding.
    pub charset: Option<String>,
    /// Pragma directive name.
    pub http_equiv: Option<String>,
    /// Scheme to interpret the property's value by.
    pub scheme: Option<String>,
}

/// The value of the first attribute of `bag` named `key`, if any.
pub open spec fn spec_attr_lookup(bag: Seq<(Seq<char>, Seq<char>)>, key: Seq<char>) -> Option<
    Seq<char>,
>
    decreases bag.len(),
{
    if bag.len() == 0 {
        Option::None
    } else if bag[0].0 == key {
        Option::Some(bag[0].1)
    } else {
        spec_attr_lookup(bag.drop_first(), key)
    }
}

/// The [`Meta`] record an attribute bag denotes, by field.
pub open spec fn spec_meta_of_bag(bag: Seq<(Seq<char>, Seq<char>)>, m: Meta) -> bool {
    &&& m.property.deep_view() == spec_attr_lookup(bag, "property"@)
    &&& m.name.deep_view() == spec_attr_lookup(bag, "name"@)
    &&& m.content.deep_view() == spec_attr_lookup(bag, "content"@)
    &&& m.charset.deep_view() == spec_attr_lookup(bag, "charset"@)
    &&& m.http_equiv.deep_view() == spec_attr_lookup(bag, "http-equiv"@)
    &&& m.scheme.deep_view() == spec_attr_lookup(bag, "scheme"@)
}

/// The attribute bags of the `<meta>` elements an outside HTML parser
/// finds in `body`, one bag per element in document order.
pub uninterp spec fn meta_bags_of(body: Seq<char>) -> Seq<Seq<(Seq<char>, Seq<char>)>>;

/// Relies on scraper: `Html::parse_document`, a `select` over the
/// `meta` selector, and `Element::attrs`.  Parsing is deterministic, a
/// function of the text alone; it never fails, and malformed HTML
/// yields whatever elements were recovered.
#[verifier::external_body]
fn meta_attr_bags(body: &str) -> (r: Vec<Vec<(String, String)>>)
    ensures
        r.deep_view() == meta_bags_of(body@),
{
    let document = scraper::Html::parse_document(body);
    let selector = scraper::Selector::parse("meta").unwrap();
    document
        .select(&selector)
        .map(|el| el.value().attrs().map(|(k, v)| (k.to_owned(), v.to_owned())).collect())
        .collect()
}

/// The value of the first attribute of `bag` named `key`, if any.
fn attr_lookup(bag: &Vec<(String, String)>, key: &String) -> (r: Option<String>)
    ensures
        r.deep_view() == spec_attr_lookup(bag.deep_view(), key@),
{
    let ghost dv = bag.deep_view();
    proof {
        assert(dv.skip(0) =~= dv);
    }
    let mut i: usize = 0;
    while i < bag.len()
        invariant
            i <= bag@.len(),
            dv == bag.deep_view(),
            spec_attr_lookup(dv, key@) == spec_attr_lookup(dv.skip(i as int), key@),
        decreases bag@.len() - i,
    {
        let ghost rest = dv.skip(i as int);
        proof {
            assert(rest[0] == dv[i as int]);
            assert(dv[i as int] == (bag@[i as int].0@, bag@[i as int].1@));
            assert(rest.drop_first() =~= dv.skip(i + 1));
        }
        if bag[i].0 == *key {
            proof {
                assert(spec_attr_lookup(rest, key@) == Option::Some(rest[0].1));
            }
            return Some(bag[i].1.clone());
        }
        proof {
            assert(spec_attr_lookup(rest, key@) == spec_attr_lookup(rest.drop_first(), key@));
        }
        i += 1;
    }
    proof {
        assert(dv.skip(i as int) =~= Seq::<(Seq<char>, Seq<char>)>::empty());
    }
    None
}

/// The [`Meta`] record of one attribute bag.
pub fn meta_of_bag(bag: &Vec<(String, String)>) -> (m: Meta)
    ensures
        spec_meta_of_bag(bag.deep_view(), m),
{
    Meta {
        property: attr_lookup(bag, &"property".to_owned()),
        name: attr_lookup(bag, &"name".to_owned()),
        content: attr_lookup(bag, &"content".to_owned()),
        charset: attr_lookup(bag, &"charset".to_owned()),
        http_equiv: attr_lookup(bag, &"http-equiv".to_owned()),
        scheme: attr_lookup(bag, &"scheme".to_owned()),
    }
}

/// The [`Meta`] records of a sequence of attribute bags, in order.
pub fn metas_from_bags(bags: &Vec<Vec<(String, String)>>) -> (r: Vec<Meta>)
    ensures
        r@.len() == bags.deep_view().len(),
        forall|i: int|
            0 <= i < r@.len() ==> spec_meta_of_bag(bags.deep_view()[i], #[trigger] r@[i]),
{
    let mut r: Vec<Meta> = Vec::new();
    let mut i: usize = 0;
    while i < bags.len()
        invariant
            i <= bags@.len(),
            r@.len() == i,
            forall|j: int|
                0 <= j < i ==> spec_meta_of_bag(bags.deep_view()[j], #[trigger] r@[j]),
        decreases bags@.len() - i,
    {
        proof {
            assert(bags.deep_view()[i as int] == bags@[i as int].deep_view());
        }
        r.push(meta_of_bag(&bags[i]));
        i += 1;
    }
    r
}

/// Extract the `<meta>` tags of a complete HTML page: one [`Meta`]
/// record per element found, in document order.  Extraction never
/// fails; the `Result` reports per-page errors of the wider fetch
/// pipeline and is always `Ok` here.
pub fn extract_meta_tags(body: &str) -> (r: Result<Vec<Meta>, crate::error::Error>)
    ensures
        r matches Ok(v) && v@.len() == meta_bags_of(body@).len(),
        r matches Ok(v) ==> forall|i: int|
            0 <= i < v@.len() ==> spec_meta_of_bag(meta_bags_of(body@)[i], #[trigger] v@[i]),
{
    let bags = meta_attr_bags(body);
    Ok(metas_from_bags(&bags))
}

} // verus!
