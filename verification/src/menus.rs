//! The player's own context menus, laid down with the menu builder.
use vstd::prelude::*;
use crate::builder::{MenuX, MenuXView};
use crate::config::{ColorScheme, Config, MenuSize, MenuTheme, Theme, ThemeColor};
use crate::item::{
    initial_state, new_item_view, ItemView, MENU_NORMAL, XMT_CHECKBOX, XMT_RADIO, XMT_SEPARATOR,
    XMT_STRING,
};
use crate::settings::{Sort, SortOrder};

verus! {

/// Where on the screen a context menu was asked for.
#[derive(Clone, Copy, Debug, PartialEq, Eq, Structural)]
pub struct Position {
    pub x: i32,
    pub y: i32,
}

/// The commands of the player's context menu.
#[derive(Clone, Copy, Debug, PartialEq, Eq, Structural)]
pub enum PlayerMenu {
    PlaybackSpeed,
    SeekSpeed,
    TogglePlaylistWindow,
    FitToWindow,
    ToggleFullscreen,
    Theme,
    Capture,
    PictureInPicture,
}

impl PlayerMenu {
    /// The identifier a command is reported under.
    pub open spec fn spec_name(self) -> Seq<char> {
        match self {
            PlayerMenu::PlaybackSpeed => "PlaybackSpeed"@,
            PlayerMenu::SeekSpeed => "SeekSpeed"@,
            PlayerMenu::TogglePlaylistWindow => "TogglePlaylistWindow"@,
            PlayerMenu::FitToWindow => "FitToWindow"@,
            PlayerMenu::ToggleFullscreen => "ToggleFullscreen"@,
            PlayerMenu::Theme => "Theme"@,
            PlayerMenu::Capture => "Capture"@,
            PlayerMenu::PictureInPicture => "PictureInPicture"@,
        }
    }

    /// The identifier as text.
    pub fn name(&self) -> (text: &'static str)
        ensures
            text@ == self.spec_name(),
    {
        match self {
            PlayerMenu::PlaybackSpeed => "PlaybackSpeed",
            PlayerMenu::SeekSpeed => "SeekSpeed",
            PlayerMenu::TogglePlaylistWindow => "TogglePlaylistWindow",
            PlayerMenu::FitToWindow => "FitToWindow",
            PlayerMenu::ToggleFullscreen => "ToggleFullscreen",
            PlayerMenu::Theme => "Theme",
            PlayerMenu::Capture => "Capture",
            PlayerMenu::PictureInPicture => "PictureInPicture",
        }
    }
}

/// The commands of the playlist's context menu.
#[derive(Clone, Copy, Debug, PartialEq, Eq, Structural)]
pub enum PlaylistMenu {
    Remove,
    RemoveAll,
    Trash,
    CopyFileName,
    CopyFullpath,
    Reveal,
    Metadata,
    Convert,
    Sort,
    Rename,
    Move,
}

impl PlaylistMenu {
    /// The identifier a command is reported under.
    pub open spec fn spec_name(self) -> Seq<char> {
        match self {
            PlaylistMenu::Remove => "Remove"@,
            PlaylistMenu::RemoveAll => "RemoveAll"@,
            PlaylistMenu::Trash => "Trash"@,
            PlaylistMenu::CopyFileName => "CopyFileName"@,
            PlaylistMenu::CopyFullpath => "CopyFullpath"@,
            PlaylistMenu::Reveal => "Reveal"@,
            PlaylistMenu::Metadata => "Metadata"@,
            PlaylistMenu::Convert => "Convert"@,
            PlaylistMenu::Sort => "Sort"@,
            PlaylistMenu::Rename => "Rename"@,
            PlaylistMenu::Move => "Move"@,
        }
    }

    /// The identifier as text.
    pub fn name(&self) -> (text: &'static str)
        ensures
            text@ == self.spec_name(),
    {
        match self {
            PlaylistMenu::Remove => "Remove",
            PlaylistMenu::RemoveAll => "RemoveAll",
            PlaylistMenu::Trash => "Trash",
            PlaylistMenu::CopyFileName => "CopyFileName",
            PlaylistMenu::CopyFullpath => "CopyFullpath",
            PlaylistMenu::Reveal => "Reveal",
            PlaylistMenu::Metadata => "Metadata",
            PlaylistMenu::Convert => "Convert",
            PlaylistMenu::Sort => "Sort",
            PlaylistMenu::Rename => "Rename",
            PlaylistMenu::Move => "Move",
        }
    }
}

/// The rows of the sort menu.
#[derive(Clone, Copy, Debug, PartialEq, Eq, Structural)]
pub enum SortMenu {
    GroupBy,
    NameAsc,
    NameDesc,
    DateAsc,
    DateDesc,
}

impl SortMenu {
    /// The identifier a row is reported under.
    pub open spec fn spec_name(self) -> Seq<char> {
        match self {
            SortMenu::GroupBy => "GroupBy"@,
            SortMenu::NameAsc => "NameAsc"@,
            SortMenu::NameDesc => "NameDesc"@,
            SortMenu::DateAsc => "DateAsc"@,
            SortMenu::DateDesc => "DateDesc"@,
        }
    }

    /// The identifier as text.
    pub fn name(&self) -> (text: &'static str)
        ensures
            text@ == self.spec_name(),
    {
        match self {
            SortMenu::GroupBy => "GroupBy",
            SortMenu::NameAsc => "NameAsc",
            SortMenu::NameDesc => "NameDesc",
            SortMenu::DateAsc => "DateAsc",
            SortMenu::DateDesc => "DateDesc",
        }
    }
}

/// The appearance of the player's menus: no frame, wide rows, and a dark
/// palette of its own.
pub open spec fn menu_config(theme: Theme) -> Config {
    Config {
        size: MenuSize { border_width: 0, item_horizontal_padding: 20, ..MenuSize::initial() },
        theme: MenuTheme {
            is_dark: theme == Theme::Dark,
            color: ThemeColor {
                dark: ColorScheme {
                    color: 0x00efefef,
                    background_color: 0x00202020,
                    ..ColorScheme::default_dark()
                },
                light: ColorScheme::default_light(),
            },
        },
    }
}

/// The configuration the player's menus are made with.
pub fn get_menu_config(theme: Theme) -> (config: Config)
    ensures
        config == menu_config(theme),
{
    let mut config = Config::default();
    config.size.border_width = 0;
    config.size.item_horizontal_padding = 20;
    config.theme.is_dark = theme == Theme::Dark;
    config.theme.color.dark.color = 0x00efefef;
    config.theme.color.dark.background_color = 0x00202020;
    config
}

/// A command row of the playlist menu.
pub open spec fn command_row(
    command: PlaylistMenu,
    label: Seq<char>,
    accelerator: Option<Seq<char>>,
) -> ItemView {
    new_item_view(
        command.spec_name(),
        label,
        Seq::empty(),
        accelerator,
        None,
        MENU_NORMAL,
        XMT_STRING,
    )
}

/// A separator row.
pub open spec fn separator_row() -> ItemView {
    new_item_view(
        Seq::empty(),
        Seq::empty(),
        Seq::empty(),
        None,
        None,
        MENU_NORMAL,
        XMT_SEPARATOR,
    )
}

/// The row of the sort menu that stands for an order; it is checked when
/// that order is the current one.
pub open spec fn order_row(row: SortMenu, label: Seq<char>, order: SortOrder, current: SortOrder) -> ItemView {
    new_item_view(
        row.spec_name(),
        label,
        Seq::empty(),
        None,
        Some(PlaylistMenu::Sort.spec_name()),
        initial_state(false, order == current),
        XMT_RADIO,
    )
}

/// The rows of the playlist's context menu, top to bottom.
pub open spec fn playlist_rows() -> Seq<ItemView> {
    seq![
        command_row(PlaylistMenu::Remove, "Remove"@, Some("Delete"@)),
        command_row(PlaylistMenu::Trash, "Trash"@, Some("Shift+Delete"@)),
        separator_row(),
        command_row(PlaylistMenu::CopyFileName, "Copy Name"@, Some("Ctrl+C"@)),
        command_row(PlaylistMenu::CopyFullpath, "Copy Full Path"@, Some("Ctrl+Shift+C"@)),
        command_row(PlaylistMenu::Reveal, "Reveal in File Explorer"@, Some("Ctrl+R"@)),
        separator_row(),
        command_row(PlaylistMenu::Rename, "Rename"@, Some("F2"@)),
        command_row(PlaylistMenu::Metadata, "View Metadata"@, None),
        command_row(PlaylistMenu::Convert, "Convert"@, None),
        separator_row(),
        command_row(PlaylistMenu::Move, "Move File"@, None),
        separator_row(),
        command_row(PlaylistMenu::RemoveAll, "Clear Playlist"@, None),
    ]
}

/// The rows of the sort menu for the given settings, top to bottom: the
/// grouping checkbox, a separator, and one radio row for each order.
pub open spec fn sort_rows(sort: Sort) -> Seq<ItemView> {
    seq![
        new_item_view(
            SortMenu::GroupBy.spec_name(),
            "Group By Directory"@,
            Seq::empty(),
            None,
            None,
            initial_state(false, sort.groupBy),
            XMT_CHECKBOX,
        ),
        separator_row(),
        order_row(SortMenu::NameAsc, "Name(Asc)"@, SortOrder::NameAsc, sort.order),
        order_row(SortMenu::NameDesc, "Name(Desc)"@, SortOrder::NameDesc, sort.order),
        order_row(SortMenu::DateAsc, "Date(Asc)"@, SortOrder::DateAsc, sort.order),
        order_row(SortMenu::DateDesc, "Date(Desc"@, SortOrder::DateDesc, sort.order),
    ]
}

/// Appends the rows of the playlist's context menu to a menu.
pub fn create_playlist_menu(builder: &mut MenuX)
    ensures
        final(builder)@ == (MenuXView {
            items: old(builder)@.items + playlist_rows(),
            ..old(builder)@
        }),
        old(builder)@.rows_wf() ==> final(builder)@.rows_wf(),
{
    builder.text_with_accelerator(PlaylistMenu::Remove.name(), "Remove", Some(false), "Delete");
    builder.text_with_accelerator(PlaylistMenu::Trash.name(), "Trash", Some(false), "Shift+Delete");
    builder.separator();
    builder.text_with_accelerator(
        PlaylistMenu::CopyFileName.name(),
        "Copy Name",
        Some(false),
        "Ctrl+C",
    );
    builder.text_with_accelerator(
        PlaylistMenu::CopyFullpath.name(),
        "Copy Full Path",
        Some(false),
        "Ctrl+Shift+C",
    );
    builder.text_with_accelerator(
        PlaylistMenu::Reveal.name(),
        "Reveal in File Explorer",
        Some(false),
        "Ctrl+R",
    );
    builder.separator();
    builder.text_with_accelerator(PlaylistMenu::Rename.name(), "Rename", Some(false), "F2");
    builder.text(PlaylistMenu::Metadata.name(), "View Metadata", Some(false));
    builder.text(PlaylistMenu::Convert.name(), "Convert", Some(false));
    builder.separator();
    builder.text(PlaylistMenu::Move.name(), "Move File", Some(false));
    builder.separator();
    builder.text(PlaylistMenu::RemoveAll.name(), "Clear Playlist", Some(false));
    assert(builder@.items =~= old(builder)@.items + playlist_rows());
}

/// Appends the rows of the sort menu to a menu: of the four orders, the
/// one in force is checked.
pub fn create_sort_menu(builder: &mut MenuX, sort: &Sort)
    ensures
        final(builder)@ == (MenuXView {
            items: old(builder)@.items + sort_rows(*sort),
            ..old(builder)@
        }),
        old(builder)@.rows_wf() ==> final(builder)@.rows_wf(),
{
    let group = PlaylistMenu::Sort.name();
    builder.check(SortMenu::GroupBy.name(), "Group By Directory", "", sort.groupBy, Some(false));
    builder.separator();
    builder.radio(
        SortMenu::NameAsc.name(),
        "Name(Asc)",
        "",
        group,
        sort.order == SortOrder::NameAsc,
        Some(false),
    );
    builder.radio(
        SortMenu::NameDesc.name(),
        "Name(Desc)",
        "",
        group,
        sort.order == SortOrder::NameDesc,
        Some(false),
    );
    builder.radio(
        SortMenu::DateAsc.name(),
        "Date(Asc)",
        "",
        group,
        sort.order == SortOrder::DateAsc,
        Some(false),
    );
    builder.radio(
        SortMenu::DateDesc.name(),
        "Date(Desc",
        "",
        group,
        sort.order == SortOrder::DateDesc,
        Some(false),
    );
    proof {
        reveal_strlit("");
    }
    assert(""@ =~= Seq::<char>::empty());
    assert(builder@.items =~= old(builder)@.items + sort_rows(*sort));
}

} // verus!
