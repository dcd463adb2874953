use vstd::prelude::*;
use crate::bounds::Bounds;

verus! {

/// Interaction state of a sensitive zone.
#[derive(Debug, Clone, Copy, PartialEq, Eq, Structural)]
pub enum SensitiveZoneState {
    Normal,
    Hovered,
    Selected,
    SelectedHovered,
    Disabled,
}

/// Visual styling of a zone in one state.
#[derive(Debug, Clone, Copy)]
pub struct ZoneStyle {
    pub fg_color: Option<(u8, u8, u8)>,
    pub bg_color: Option<(u8, u8, u8)>,
    pub bold: bool,
    pub underline: bool,
    pub italic: bool,
}

/// Kind of content a zone stands for.
#[derive(Debug, Clone, Copy, PartialEq, Eq, Structural)]
pub enum ContentType {
    Choice,
    Link,
    Button,
    ChartElement,
    Tab,
    Scrollbar,
    Interactive,
}

/// Additional data of a zone.
#[derive(Debug, Clone)]
pub struct SensitiveMetadata {
    pub display_text: Option<String>,
    pub tooltip: Option<String>,
    pub enabled: bool,
    pub original_line: Option<usize>,
    pub char_range: Option<(usize, usize)>,
    pub custom_data: Option<String>,
}

impl SensitiveMetadata {
    pub open spec fn is_default(self) -> bool {
        &&& self.display_text is None
        &&& self.tooltip is None
        &&& self.enabled
        &&& self.original_line is None
        &&& self.char_range is None
        &&& self.custom_data is None
    }
}

impl Default for SensitiveMetadata {
    /// Enabled, with nothing else set.
    fn default() -> (m: Self)
        ensures
            m.is_default(),
    {
        SensitiveMetadata {
            display_text: None,
            tooltip: None,
            enabled: true,
            original_line: None,
            char_range: None,
            custom_data: None,
        }
    }
}

impl ZoneStyle {
    pub open spec fn spec_default() -> ZoneStyle {
        ZoneStyle { fg_color: None, bg_color: None, bold: false, underline: false, italic: false }
    }

    pub open spec fn spec_default_hover() -> ZoneStyle {
        ZoneStyle {
            fg_color: Some((255, 255, 255)),
            bg_color: Some((100, 149, 237)),
            bold: false,
            underline: false,
            italic: false,
        }
    }

    pub open spec fn spec_default_selected() -> ZoneStyle {
        ZoneStyle {
            fg_color: Some((255, 255, 255)),
            bg_color: Some((70, 130, 180)),
            bold: true,
            underline: false,
            italic: false,
        }
    }

    /// Plain style: no colors, no attributes.
    pub fn default() -> (s: Self)
        ensures
            s == Self::spec_default(),
    {
        ZoneStyle { fg_color: None, bg_color: None, bold: false, underline: false, italic: false }
    }

    /// Hover style: white text on cornflower blue.
    pub fn default_hover() -> (s: Self)
        ensures
            s == Self::spec_default_hover(),
    {
        ZoneStyle {
            fg_color: Some((255, 255, 255)),
            bg_color: Some((100, 149, 237)),
            bold: false,
            underline: false,
            italic: false,
        }
    }

    /// Selected style: bold white text on steel blue.
    pub fn default_selected() -> (s: Self)
        ensures
            s == Self::spec_default_selected(),
    {
        ZoneStyle {
            fg_color: Some((255, 255, 255)),
            bg_color: Some((70, 130, 180)),
            bold: true,
            underline: false,
            italic: false,
        }
    }
}

/// A screen area that reacts to the mouse, with its styles per state.
#[derive(Debug, Clone)]
pub struct SensitiveZone {
    pub id: String,
    pub bounds: Bounds,
    pub display_text: String,
    pub action: String,
    pub state: SensitiveZoneState,
    pub normal_style: ZoneStyle,
    pub hover_style: ZoneStyle,
    pub selected_style: ZoneStyle,
    pub content_type: ContentType,
    pub metadata: SensitiveMetadata,
}

impl SensitiveZone {
    /// The style that the state selects: hover wins over selection, and a
    /// disabled zone looks normal.
    pub open spec fn spec_current_style(self) -> ZoneStyle {
        match self.state {
            SensitiveZoneState::Normal => self.normal_style,
            SensitiveZoneState::Hovered => self.hover_style,
            SensitiveZoneState::Selected => self.selected_style,
            SensitiveZoneState::SelectedHovered => self.hover_style,
            SensitiveZoneState::Disabled => self.normal_style,
        }
    }

    /// A zone in the normal state with the default styles.
    pub fn new(
        id: String,
        bounds: Bounds,
        display_text: String,
        action: String,
        content_type: ContentType,
    ) -> (z: Self)
        ensures
            z.id == id,
            z.bounds == bounds,
            z.display_text == display_text,
            z.action == action,
            z.state == SensitiveZoneState::Normal,
            z.normal_style == ZoneStyle::spec_default(),
            z.hover_style == ZoneStyle::spec_default_hover(),
            z.selected_style == ZoneStyle::spec_default_selected(),
            z.content_type == content_type,
            z.metadata.is_default(),
    {
        SensitiveZone {
            id,
            bounds,
            display_text,
            action,
            state: SensitiveZoneState::Normal,
            normal_style: ZoneStyle::default(),
            hover_style: ZoneStyle::default_hover(),
            selected_style: ZoneStyle::default_selected(),
            content_type,
            metadata: SensitiveMetadata::default(),
        }
    }

    /// A choice zone with the given normal and hover colors; the display text
    /// is also kept in the metadata.
    pub fn new_choice(
        id: String,
        bounds: Bounds,
        display_text: String,
        action: String,
        normal_fg: Option<(u8, u8, u8)>,
        normal_bg: Option<(u8, u8, u8)>,
        hover_fg: Option<(u8, u8, u8)>,
        hover_bg: Option<(u8, u8, u8)>,
    ) -> (z: Self)
        ensures
            z.id == id,
            z.bounds == bounds,
            z.display_text@ == display_text@,
            z.action == action,
            z.state == SensitiveZoneState::Normal,
            z.normal_style == (ZoneStyle { fg_color: normal_fg, bg_color: normal_bg, ..ZoneStyle::spec_default() }),
            z.hover_style == (ZoneStyle { fg_color: hover_fg, bg_color: hover_bg, ..ZoneStyle::spec_default_hover() }),
            z.selected_style == ZoneStyle::spec_default_selected(),
            z.content_type == ContentType::Choice,
            z.metadata.display_text matches Some(t) && t@ == display_text@,
            z.metadata.tooltip is None,
            z.metadata.enabled,
            z.metadata.original_line is None,
            z.metadata.char_range is None,
            z.metadata.custom_data is None,
    {
        let text_copy = display_text.clone();
        let mut zone = Self::new(id, bounds, text_copy, action, ContentType::Choice);
        zone.normal_style.fg_color = normal_fg;
        zone.normal_style.bg_color = normal_bg;
        zone.hover_style.fg_color = hover_fg;
        zone.hover_style.bg_color = hover_bg;
        zone.metadata.display_text = Some(display_text);
        zone
    }

    /// Whether a cell lies in the zone, borders included on all four sides.
    pub fn contains_point(&self, x: usize, y: usize) -> (r: bool)
        ensures
            r == (self.bounds.x1 <= x <= self.bounds.x2 && self.bounds.y1 <= y <= self.bounds.y2),
    {
        x >= self.bounds.left() && x <= self.bounds.right() && y >= self.bounds.top() && y
            <= self.bounds.bottom()
    }

    pub fn set_state(&mut self, new_state: SensitiveZoneState)
        ensures
            *final(self) == (SensitiveZone { state: new_state, ..*old(self) }),
    {
        self.state = new_state;
    }

    pub fn current_style(&self) -> (s: &ZoneStyle)
        ensures
            *s == self.spec_current_style(),
    {
        match self.state {
            SensitiveZoneState::Normal => &self.normal_style,
            SensitiveZoneState::Hovered => &self.hover_style,
            SensitiveZoneState::Selected => &self.selected_style,
            SensitiveZoneState::SelectedHovered => &self.hover_style,
            SensitiveZoneState::Disabled => &self.normal_style,
        }
    }

    /// Enabled in the metadata and not in the disabled state.
    pub fn is_interactive(&self) -> (r: bool)
        ensures
            r == (self.metadata.enabled && self.state != SensitiveZoneState::Disabled),
    {
        self.metadata.enabled && self.state != SensitiveZoneState::Disabled
    }

    /// Sets the display text, in the zone and in its metadata.
    pub fn update_display_text(&mut self, new_text: String)
        ensures
            final(self).display_text@ == new_text@,
            final(self).metadata.display_text matches Some(t) && t@ == new_text@,
            final(self).id == old(self).id,
            final(self).bounds == old(self).bounds,
            final(self).action == old(self).action,
            final(self).state == old(self).state,
            final(self).normal_style == old(self).normal_style,
            final(self).hover_style == old(self).hover_style,
            final(self).selected_style == old(self).selected_style,
            final(self).content_type == old(self).content_type,
            final(self).metadata.tooltip == old(self).metadata.tooltip,
            final(self).metadata.enabled == old(self).metadata.enabled,
            final(self).metadata.original_line == old(self).metadata.original_line,
            final(self).metadata.char_range == old(self).metadata.char_range,
            final(self).metadata.custom_data == old(self).metadata.custom_data,
    {
        self.display_text = new_text.clone();
        self.metadata.display_text = Some(new_text);
    }

    pub fn update_bounds(&mut self, new_bounds: Bounds)
        ensures
            *final(self) == (SensitiveZone { bounds: new_bounds, ..*old(self) }),
    {
        self.bounds = new_bounds;
    }

    /// A zone under the mouse needs to be redrawn at once.
    pub fn needs_redraw(&self) -> (r: bool)
        ensures
            r == (self.state == SensitiveZoneState::Hovered || self.state
                == SensitiveZoneState::SelectedHovered),
    {
        match self.state {
            SensitiveZoneState::Hovered | SensitiveZoneState::SelectedHovered => true,
            _ => false,
        }
    }

    /// Colors and attributes of the current style.
    pub fn get_display_attributes(&self) -> (r: (Option<(u8, u8, u8)>, Option<(u8, u8, u8)>, bool, bool, bool))
        ensures
            r == (
                self.spec_current_style().fg_color,
                self.spec_current_style().bg_color,
                self.spec_current_style().bold,
                self.spec_current_style().underline,
                self.spec_current_style().italic,
            ),
    {
        let style = self.current_style();
        (style.fg_color, style.bg_color, style.bold, style.underline, style.italic)
    }
}

} // verus!
