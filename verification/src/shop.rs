//! The offers of the item shop: how they are written out, and how the text
//! is cut into messages.

use crate::text::{pieces, split, trimmed};
use vstd::prelude::*;
use vstd::string::StringExecFns;

verus! {

/// Where the pictures of the offers are found.
pub const IMG_PREPEND: &'static str = "https://fortnite.gg";

/// What stands between two offers in the text.
pub const DELIMITER: &'static str = "^^^";

/// An offer of the shop.
#[derive(Debug, Clone, PartialEq, Eq)]
pub struct FnShop {
    pub url: String,
    pub name: String,
    pub time: String,
    pub price: String,
}

/// What an offer holds, as mathematical values.
pub struct OfferModel {
    pub url: Seq<char>,
    pub name: Seq<char>,
    pub time: Seq<char>,
    pub price: Seq<char>,
}

impl View for FnShop {
    type V = OfferModel;

    open spec fn view(&self) -> OfferModel {
        OfferModel { url: self.url@, name: self.name@, time: self.time@, price: self.price@ }
    }
}

/// The text `t`, or `none` where it is missing.
pub open spec fn filled(t: Option<String>, none: Seq<char>) -> Seq<char> {
    match t {
        Some(s) => s@,
        None => none,
    }
}

/// The offer made of what was found of it on the page, each missing part
/// replaced by a note that says so.
pub fn offer_from(
    url: Option<String>,
    name: Option<String>,
    price: Option<String>,
    time: Option<String>,
) -> (item: FnShop)
    ensures
        item@ == (OfferModel {
            url: filled(url, "No Image"@),
            name: filled(name, "No Name"@),
            time: filled(time, "Unknown Time Remaining"@),
            price: filled(price, "No Price"@),
        }),
{
    FnShop {
        url: match url {
            Some(s) => s,
            None => "No Image".to_owned(),
        },
        name: match name {
            Some(s) => s,
            None => "No Name".to_owned(),
        },
        time: match time {
            Some(s) => s,
            None => "Unknown Time Remaining".to_owned(),
        },
        price: match price {
            Some(s) => s,
            None => "No Price".to_owned(),
        },
    }
}

/// The text of an offer: the address of its picture, then name, price and
/// time left, each on a line of its own, then the delimiter.
pub open spec fn offer_text(item: OfferModel) -> Seq<char> {
    IMG_PREPEND@ + "/"@ + item.url + "\n\n**Name:** "@ + item.name + "\n**Price:** "@
        + item.price + "\n**Time Remaining:** "@ + item.time + "\n"@ + DELIMITER@ + "\n"@
}

/// The texts of `items`, one after the other.
pub open spec fn offers_text(items: Seq<FnShop>) -> Seq<char>
    decreases items.len(),
{
    if items.len() == 0 {
        Seq::empty()
    } else {
        offers_text(items.drop_last()) + offer_text(items.last()@)
    }
}

/// The text of the offers; none where there is no offer.
pub fn formatItems(items: Vec<FnShop>) -> (form: Option<String>)
    ensures
        match form {
            Some(text) => items@.len() > 0 && text@ == offers_text(items@),
            None => items@.len() == 0,
        },
{
    if items.len() == 0 {
        return None;
    }
    let mut form: String = String::new();
    let mut i: usize = 0;
    assert(items@.take(0) =~= Seq::<FnShop>::empty());
    while i < items.len()
        invariant
            i <= items.len(),
            form@ == offers_text(items@.take(i as int)),
        decreases items.len() - i,
    {
        assert(items@.take(i + 1).drop_last() =~= items@.take(i as int));
        let ghost before = form@;
        form.append(IMG_PREPEND);
        form.append("/");
        form.append(items[i].url.as_str());
        form.append("\n\n**Name:** ");
        form.append(items[i].name.as_str());
        form.append("\n**Price:** ");
        form.append(items[i].price.as_str());
        form.append("\n**Time Remaining:** ");
        form.append(items[i].time.as_str());
        form.append("\n");
        form.append(DELIMITER);
        form.append("\n");
        assert(form@ =~= before + offer_text(items@[i as int]@));
        i += 1;
    }
    assert(items@.take(items.len() as int) =~= items@);
    Some(form)
}

/// The trimmed texts of `sections` that are not empty, in order.
pub open spec fn kept_sections(sections: Seq<Seq<char>>) -> Seq<Seq<char>>
    decreases sections.len(),
{
    if sections.len() == 0 {
        Seq::empty()
    } else if trimmed(sections.last()).len() == 0 {
        kept_sections(sections.drop_last())
    } else {
        kept_sections(sections.drop_last()).push(trimmed(sections.last()))
    }
}

/// The messages that `message` falls into at `delimiter`: each section
/// without the white space at its ends, sections that hold nothing else
/// left out.
pub fn splitMessage(message: String, delimiter: &str) -> (messages: Vec<String>)
    ensures
        messages.deep_view() == kept_sections(pieces(message@, delimiter@)),
{
    let sections: Vec<String> = split(message.as_str(), delimiter);
    let mut messages: Vec<String> = Vec::new();
    let mut i: usize = 0;
    assert(sections.deep_view().take(0) =~= Seq::<Seq<char>>::empty());
    assert(messages.deep_view() =~= Seq::<Seq<char>>::empty());
    while i < sections.len()
        invariant
            i <= sections.len(),
            messages.deep_view() == kept_sections(sections.deep_view().take(i as int)),
        decreases sections.len() - i,
    {
        proof {
            let upto = sections.deep_view().take(i + 1);
            assert(upto.drop_last() =~= sections.deep_view().take(i as int));
            assert(upto.last() == sections[i as int]@);
        }
        let inner: &str = sections[i].as_str().trim();
        if inner.unicode_len() != 0 {
            let ghost done = messages.deep_view();
            messages.push(inner.to_owned());
            assert(messages.deep_view() =~= done.push(inner@));
        }
        i += 1;
    }
    assert(sections.deep_view().take(sections.len() as int) =~= sections.deep_view());
    messages
}

} // verus!
