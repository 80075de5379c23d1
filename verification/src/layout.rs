//! Screen layout arithmetic for the terminal front end: a rectangle
//! model and the modal and stacked layouts computed over it.

use vstd::prelude::*;

verus! {

/// A screen rectangle in cells.
#[derive(Debug, Clone, Copy, PartialEq, Eq, Structural)]
pub struct ScreenRect {
    pub x: u16,
    pub y: u16,
    pub width: u16,
    pub height: u16,
}

/// Marker for an empty modal body.
#[derive(Debug, Clone, Copy, PartialEq, Eq, Structural)]
pub struct EmptyModal;

/// Marker for an empty header slot.
#[derive(Debug, Clone, Copy, PartialEq, Eq, Structural)]
pub struct EmptyHeader;

/// Marker for an empty content slot.
#[derive(Debug, Clone, Copy, PartialEq, Eq, Structural)]
pub struct EmptyLayout;

/// Marker for an empty footer slot.
#[derive(Debug, Clone, Copy, PartialEq, Eq, Structural)]
pub struct EmptyFooter;

/// A titled modal over some content.
#[derive(Debug, Clone)]
pub struct Modal<T> {
    pub title: String,
    pub content: T,
}

impl Modal<EmptyModal> {
    /// A modal with a title and no content yet.
    pub fn new(title: String) -> (r: Self)
        ensures
            r.title == title,
            r.content == EmptyModal,
    {
        Modal { title, content: EmptyModal }
    }

    /// Put content into the modal.
    pub fn content<W>(self, widget: W) -> (r: Modal<W>)
        ensures
            r.title == self.title,
            r.content == widget,
    {
        Modal { title: self.title, content: widget }
    }
}

impl<T> Modal<T> {
    /// Replace the title.
    pub fn title(self, title: String) -> (r: Self)
        ensures
            r.title == title,
            r.content == self.content,
    {
        Modal { title, content: self.content }
    }
}

/// Where a modal sits in `area`: a half-width, third-height rectangle
/// centred in the area, and its one-cell-inset content region.
pub fn modal_layout(area: ScreenRect) -> (r: (ScreenRect, ScreenRect))
    requires
        area.x + area.width <= u16::MAX,
        area.y + area.height <= u16::MAX,
    ensures
        r.0.width == area.width / 2,
        r.0.height == area.height / 3,
        r.0.x == area.x + (area.width - area.width / 2) / 2,
        r.0.y == area.y + (area.height - area.height / 3) / 2,
        r.0.width >= 2 && r.0.height >= 2 ==> r.1 == (ScreenRect {
            x: (r.0.x + 1) as u16,
            y: (r.0.y + 1) as u16,
            width: (r.0.width - 2) as u16,
            height: (r.0.height - 2) as u16,
        }),
{
    let width = area.width / 2;
    let height = area.height / 3;
    let x = area.x + (area.width - width) / 2;
    let y = area.y + (area.height - height) / 2;
    let modal_area = ScreenRect { x, y, width, height };
    let content_area = if width >= 2 && height >= 2 {
        ScreenRect { x: x + 1, y: y + 1, width: width - 2, height: height - 2 }
    } else {
        ScreenRect { x, y, width: 0, height: 0 }
    };
    (modal_area, content_area)
}

/// A one-line header, a content body, and a one-line footer.
#[derive(Debug, Clone)]
pub struct StackedLayout<H, T, F> {
    pub header: H,
    pub content: T,
    pub footer: F,
}

impl StackedLayout<EmptyHeader, EmptyLayout, EmptyFooter> {
    /// A stack with every slot empty.
    pub fn new() -> (r: Self)
        ensures
            r.header == EmptyHeader,
            r.content == EmptyLayout,
            r.footer == EmptyFooter,
    {
        StackedLayout { header: EmptyHeader, content: EmptyLayout, footer: EmptyFooter }
    }
}

impl<H, T, F> StackedLayout<H, T, F> {
    /// Fill the header slot.
    pub fn header<W>(self, widget: W) -> (r: StackedLayout<W, T, F>)
        ensures
            r.header == widget,
            r.content == self.content,
            r.footer == self.footer,
    {
        StackedLayout { header: widget, content: self.content, footer: self.footer }
    }

    /// Fill the content slot.
    pub fn content<W>(self, widget: W) -> (r: StackedLayout<H, W, F>)
        ensures
            r.content == widget,
            r.header == self.header,
            r.footer == self.footer,
    {
        StackedLayout { header: self.header, content: widget, footer: self.footer }
    }

    /// Fill the footer slot.
    pub fn footer<W>(self, widget: W) -> (r: StackedLayout<H, T, W>)
        ensures
            r.footer == widget,
            r.header == self.header,
            r.content == self.content,
    {
        StackedLayout { header: self.header, content: self.content, footer: widget }
    }
}

/// Split `area` into a one-line header at the top, a one-line footer at
/// the bottom, and the content between them.
pub fn stacked_layout(area: ScreenRect) -> (r: (ScreenRect, ScreenRect, ScreenRect))
    requires
        area.x + area.width <= u16::MAX,
        area.y + area.height <= u16::MAX,
    ensures
        r.0 == (ScreenRect { x: area.x, y: area.y, width: area.width, height: 1u16 }),
        r.2.x == area.x && r.2.width == area.width && r.2.height == 1,
        area.height >= 1 ==> r.2.y == area.y + area.height - 1,
        area.height == 0 ==> r.2.y == area.y,
        r.1.x == area.x && r.1.width == area.width,
        area.height >= 1 ==> r.1.y == area.y + 1,
        area.height >= 2 ==> r.1.height == area.height - 2,
        area.height < 2 ==> r.1.height == 0,
{
    let header = ScreenRect { x: area.x, y: area.y, width: area.width, height: 1 };
    let footer_y = if area.height >= 1 {
        area.y + (area.height - 1)
    } else {
        area.y
    };
    let footer = ScreenRect { x: area.x, y: footer_y, width: area.width, height: 1 };
    let content_y = if area.height >= 1 {
        area.y + 1
    } else {
        area.y
    };
    let content_h = if area.height >= 2 {
        area.height - 2
    } else {
        0
    };
    let content = ScreenRect { x: area.x, y: content_y, width: area.width, height: content_h };
    (header, content, footer)
}

} // verus!
