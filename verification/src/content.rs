//! Message content model: text and image items, single or multiple per
//! message, with the operations the conversation store and the renderer
//! need.

use vstd::prelude::*;
use vstd::string::StringExecFns;

verus! {

/// Who a message is attributed to.
#[derive(Debug, Clone, Copy, PartialEq, Eq, Structural)]
pub enum Role {
    Assistant,
    User,
}

/// The image formats the protocol accepts.
#[derive(Debug, Clone, Copy, PartialEq, Eq, Structural)]
pub enum ImageType {
    Jpeg,
    Png,
    Gif,
    Webp,
}

/// An image, already encoded as base64 text.
#[derive(Debug)]
pub struct Image {
    pub image_type: ImageType,
    pub data: String,
}

/// One content element: plain text or an image.
#[derive(Debug)]
pub enum ContentItem {
    Text(String),
    Image(Image),
}

/// The content of one message: a lone item, or an ordered list of items.
#[derive(Debug)]
pub enum Content {
    Single(ContentItem),
    Multiple(Vec<ContentItem>),
}

/// One conversational turn.
#[derive(Debug)]
pub struct Message {
    pub role: Role,
    pub content: Content,
}

/// Mathematical value of an [`Image`].
pub ghost struct ImageV {
    pub image_type: ImageType,
    pub data: Seq<char>,
}

/// Mathematical value of a [`ContentItem`].
pub ghost enum ItemV {
    Text(Seq<char>),
    Image(ImageV),
}

/// Mathematical value of a [`Content`].
pub ghost enum ContentV {
    Single(ItemV),
    Multiple(Seq<ItemV>),
}

/// Mathematical value of a [`Message`].
pub ghost struct MsgV {
    pub role: Role,
    pub content: ContentV,
}

impl View for Image {
    type V = ImageV;

    open spec fn view(&self) -> ImageV {
        ImageV { image_type: self.image_type, data: self.data@ }
    }
}

impl View for ContentItem {
    type V = ItemV;

    open spec fn view(&self) -> ItemV {
        match self {
            ContentItem::Text(t) => ItemV::Text(t@),
            ContentItem::Image(img) => ItemV::Image(img@),
        }
    }
}

impl View for Content {
    type V = ContentV;

    open spec fn view(&self) -> ContentV {
        match self {
            Content::Single(item) => ContentV::Single(item@),
            Content::Multiple(items) => ContentV::Multiple(
                items@.map_values(|item: ContentItem| item@),
            ),
        }
    }
}

impl View for Message {
    type V = MsgV;

    open spec fn view(&self) -> MsgV {
        MsgV { role: self.role, content: self.content@ }
    }
}

impl Clone for Image {
    fn clone(&self) -> (r: Self)
        ensures
            r@ == self@,
    {
        Image { image_type: self.image_type, data: self.data.clone() }
    }
}

impl Clone for ContentItem {
    fn clone(&self) -> (r: Self)
        ensures
            r@ == self@,
    {
        match self {
            ContentItem::Text(t) => ContentItem::Text(t.clone()),
            ContentItem::Image(img) => ContentItem::Image(img.clone()),
        }
    }
}

impl Clone for Content {
    fn clone(&self) -> (r: Self)
        ensures
            r@ == self@,
    {
        match self {
            Content::Single(c) => Content::Single(c.clone()),
            Content::Multiple(cs) => {
                let r = cs.clone();
                proof {
                    let f = |item: ContentItem| item@;
                    assert forall|i: int| 0 <= i < cs@.len() implies r@.map_values(f)[i]
                        == cs@.map_values(f)[i] by {
                        assert(cloned::<ContentItem>(cs@[i], r@[i]));
                    };
                    assert(r@.map_values(f) =~= cs@.map_values(f));
                }
                Content::Multiple(r)
            },
        }
    }
}

impl Clone for Message {
    fn clone(&self) -> (r: Self)
        ensures
            r@ == self@,
    {
        Message { role: self.role, content: self.content.clone() }
    }
}

/// The file extension the protocol associates with an image format.
pub open spec fn spec_extension(t: ImageType) -> Seq<char> {
    match t {
        ImageType::Jpeg => "jpg"@,
        ImageType::Png => "png"@,
        ImageType::Gif => "gif"@,
        ImageType::Webp => "webp"@,
    }
}

/// The placeholder text an image shows as: `<ext image>`.
pub open spec fn image_display(t: ImageType) -> Seq<char> {
    "<"@ + spec_extension(t) + " image>"@
}

/// The display text of one item.
pub open spec fn item_display(i: ItemV) -> Seq<char> {
    match i {
        ItemV::Text(t) => t,
        ItemV::Image(img) => image_display(img.image_type),
    }
}

/// The items a content value consists of, a lone item counting as a
/// one-element list.
pub open spec fn content_items(c: ContentV) -> Seq<ItemV> {
    match c {
        ContentV::Single(i) => seq![i],
        ContentV::Multiple(is) => is,
    }
}

/// Concatenated display text of the items from index `i` on.
pub open spec fn display_from(items: Seq<ItemV>, i: int) -> Seq<char>
    decreases items.len() - i,
{
    if i < 0 || i >= items.len() {
        Seq::empty()
    } else {
        item_display(items[i]) + display_from(items, i + 1)
    }
}

/// The display text of a whole content value.
pub open spec fn content_display(c: ContentV) -> Seq<char> {
    display_from(content_items(c), 0)
}

/// Whether every item of a content value is text.
pub open spec fn content_all_text(c: ContentV) -> bool {
    forall|k: int| 0 <= k < content_items(c).len() ==> content_items(c)[k] is Text
}

/// Concatenated text of the items from index `i` on, all of which must be
/// text for the result to be meaningful.
pub open spec fn text_from(items: Seq<ItemV>, i: int) -> Seq<char>
    decreases items.len() - i,
{
    if i < 0 || i >= items.len() {
        Seq::empty()
    } else {
        items[i]->Text_0 + text_from(items, i + 1)
    }
}

/// The concatenated text of an all-text content value.
pub open spec fn content_text(c: ContentV) -> Seq<char> {
    text_from(content_items(c), 0)
}

impl ImageType {
    /// The file extension associated with this image format.
    pub fn extension(&self) -> (r: &'static str)
        ensures
            r@ == spec_extension(*self),
    {
        match self {
            ImageType::Jpeg => "jpg",
            ImageType::Png => "png",
            ImageType::Gif => "gif",
            ImageType::Webp => "webp",
        }
    }
}

impl Image {
    /// The placeholder text shown in place of the image data.
    pub fn to_string(&self) -> (r: String)
        ensures
            r@ == image_display(self.image_type),
    {
        let mut s = String::from_str("<");
        s.append(self.image_type.extension());
        s.append(" image>");
        s
    }
}

impl ContentItem {
    /// The display text of this item.
    pub fn to_string(&self) -> (r: String)
        ensures
            r@ == item_display(self@),
    {
        match self {
            ContentItem::Text(txt) => {
                let mut s = String::new();
                s.append(txt.as_str());
                s
            },
            ContentItem::Image(img) => img.to_string(),
        }
    }
}

impl Content {
    /// The display text of this content: item texts concatenated, images
    /// shown as their placeholder.
    pub fn to_string(&self) -> (r: String)
        ensures
            r@ == content_display(self@),
    {
        match self {
            Content::Single(c) => {
                let r = c.to_string();
                proof {
                    let items = content_items(self@);
                    assert(items =~= seq![c@]);
                    assert(display_from(items, 1) =~= Seq::empty());
                    assert(content_display(self@) =~= item_display(c@));
                }
                r
            },
            Content::Multiple(cs) => {
                let ghost items = self@->Multiple_0;
                let mut s = String::new();
                let mut i: usize = 0;
                while i < cs.len()
                    invariant
                        0 <= i <= cs.len(),
                        self@ == ContentV::Multiple(items),
                        items == cs@.map_values(|item: ContentItem| item@),
                        s@ + display_from(items, i as int) =~= display_from(items, 0),
                    decreases cs.len() - i,
                {
                    let t = cs[i].to_string();
                    s.append(t.as_str());
                    i = i + 1;
                }
                s
            },
        }
    }

    /// The concatenated text of an all-text content; `None` as soon as any
    /// item is an image.
    pub fn try_into_text(&self) -> (r: Option<String>)
        ensures
            r is Some <==> content_all_text(self@),
            r is Some ==> r->0@ == content_text(self@),
    {
        match self {
            Content::Single(c) => match c {
                ContentItem::Text(t) => {
                    let mut s = String::new();
                    s.append(t.as_str());
                    proof {
                        let items = content_items(self@);
                        assert(items =~= seq![c@]);
                        assert(text_from(items, 1) =~= Seq::empty());
                        assert(content_text(self@) =~= t@);
                    }
                    Some(s)
                },
                ContentItem::Image(_) => {
                    proof {
                        assert(content_items(self@) =~= seq![c@]);
                        assert(!content_all_text(self@)) by {
                            assert(content_items(self@)[0] is Image);
                        };
                    }
                    None
                },
            },
            Content::Multiple(cs) => {
                let ghost items = self@->Multiple_0;
                let mut s = String::new();
                let mut i: usize = 0;
                while i < cs.len()
                    invariant
                        0 <= i <= cs.len(),
                        self@ == ContentV::Multiple(items),
                        items == cs@.map_values(|item: ContentItem| item@),
                        forall|k: int| 0 <= k < i ==> items[k] is Text,
                        s@ + text_from(items, i as int) =~= text_from(items, 0),
                    decreases cs.len() - i,
                {
                    let item = &cs[i];
                    proof {
                        assert(items[i as int] == item@);
                    }
                    match item {
                        ContentItem::Text(t) => {
                            s.append(t.as_str());
                            proof {
                                assert(text_from(items, i as int) == items[i as int]->Text_0
                                    + text_from(items, i as int + 1));
                            }
                        },
                        ContentItem::Image(_) => {
                            proof {
                                assert(item@ is Image);
                                assert(!content_all_text(self@)) by {
                                    assert(content_items(self@)[i as int] is Image);
                                };
                            }
                            return None;
                        },
                    }
                    i = i + 1;
                }
                proof {
                    assert(content_items(self@) == items);
                    assert(text_from(items, cs@.len() as int) =~= Seq::empty());
                    assert(s@ =~= content_text(self@));
                    assert(content_all_text(self@));
                }
                Some(s)
            },
        }
    }

    /// Merge `other` into this content, flattening into a `Multiple`, in
    /// the order: existing items, then the new ones.
    pub fn extend(&mut self, other: Content)
        ensures
            final(self)@ is Multiple,
            content_items(final(self)@) =~= content_items(old(self)@) + content_items(other@),
    {
        match (&*self, other) {
            (Content::Single(c), Content::Single(other_c)) => {
                let mut items: Vec<ContentItem> = Vec::new();
                items.push(c.clone());
                items.push(other_c);
                *self = Content::Multiple(items);
            },
            (Content::Single(c), Content::Multiple(mut other_cs)) => {
                other_cs.insert(0, c.clone());
                *self = Content::Multiple(other_cs);
            },
            (Content::Multiple(_), Content::Single(other_c)) => {
                if let Content::Multiple(cs) = self {
                    cs.push(other_c);
                }
            },
            (Content::Multiple(_), Content::Multiple(other_cs)) => {
                if let Content::Multiple(cs) = self {
                    let mut rest = other_cs;
                    let ghost orig = cs@;
                    let ghost added = rest@;
                    cs.append(&mut rest);
                    assert(cs@.map_values(|item: ContentItem| item@) =~= orig.map_values(
                        |item: ContentItem| item@,
                    ) + added.map_values(|item: ContentItem| item@));
                }
            },
        }
    }

    /// Text content from a string.
    pub fn text(s: String) -> (r: Content)
        ensures
            r@ == ContentV::Single(ItemV::Text(s@)),
    {
        Content::Single(ContentItem::Text(s))
    }

    /// Image content from an image.
    pub fn image(img: Image) -> (r: Content)
        ensures
            r@ == ContentV::Single(ItemV::Image(img@)),
    {
        Content::Single(ContentItem::Image(img))
    }
}

impl Message {
    /// Merge further content into this message.
    pub fn extend_with_content(&mut self, content: Content)
        ensures
            final(self).role == old(self).role,
            final(self)@.content is Multiple,
            content_items(final(self)@.content) =~= content_items(old(self)@.content)
                + content_items(content@),
    {
        self.content.extend(content);
    }
}

} // verus!
