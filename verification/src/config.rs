//! Immutable configuration handed to the engine at construction.
//!
//! The engine reads only the viewport-sizing fields (line-number gutter)
//! and the modal-editing flag; everything else is carried for whoever
//! paints the screen.

use vstd::prelude::*;
use vstd::string::StringExecFns;

verus! {

/// Top-level configuration.
#[derive(Debug, Clone)]
pub struct Config {
    pub main_section: MainSection,
    pub editor_behavior: EditorBehavior,
}

/// Appearance of the main editing area.
#[derive(Debug, Clone)]
pub struct MainSection {
    pub background_color: String,
    pub frame: Frame,
    pub line_numbers: LineNumbers,
    pub status_panel: StatusPanel,
    pub prompt_panel: PromptPanel,
}

/// Border drawn around the editing area.
#[derive(Debug, Clone)]
pub struct Frame {
    pub corner: String,
    pub margin: u16,
    pub color: String,
    pub hide: bool,
}

/// The line-number gutter.
#[derive(Debug, Clone)]
pub struct LineNumbers {
    pub enabled: bool,
    pub color: String,
    pub gutter_width: u16,
    pub show_separator_line: bool,
}

/// The one-row status panel under the editing area.
#[derive(Debug, Clone)]
pub struct StatusPanel {
    pub enabled: bool,
    pub background_color: String,
    pub foreground_color: String,
}

/// The one-row prompt panel under the status panel.
#[derive(Debug, Clone)]
pub struct PromptPanel {
    pub enabled: bool,
    pub background_color: String,
    pub foreground_color: String,
}

/// Editing discipline: modal (normal/insert) or always-insert.
#[derive(Debug, Clone)]
pub struct EditorBehavior {
    pub vim: bool,
}

pub fn default_frame_corner() -> (r: String)
    ensures
        r@ == "plain"@,
{
    String::from_str("plain")
}

pub fn default_margin() -> (r: u16)
    ensures
        r == 0,
{
    0
}

pub fn default_frame_color() -> (r: String)
    ensures
        r@ == "#0000FF"@,
{
    String::from_str("#0000FF")
}

pub fn default_frame_hide() -> (r: bool)
    ensures
        r == false,
{
    false
}

pub fn default_line_numbers_enabled() -> (r: bool)
    ensures
        r == true,
{
    true
}

pub fn default_line_numbers_color() -> (r: String)
    ensures
        r@ == "#808080"@,
{
    String::from_str("#808080")
}

pub fn default_line_numbers_gutter_width() -> (r: u16)
    ensures
        r == 5,
{
    5
}

pub fn default_line_numbers_show_separator_line() -> (r: bool)
    ensures
        r == false,
{
    false
}

pub fn default_status_panel_enabled() -> (r: bool)
    ensures
        r == true,
{
    true
}

pub fn default_status_panel_background_color() -> (r: String)
    ensures
        r@ == "#0000FF"@,
{
    String::from_str("#0000FF")
}

pub fn default_status_panel_foreground_color() -> (r: String)
    ensures
        r@ == "#FFFFFF"@,
{
    String::from_str("#FFFFFF")
}

pub fn default_prompt_panel_enabled() -> (r: bool)
    ensures
        r == true,
{
    true
}

pub fn default_prompt_panel_background_color() -> (r: String)
    ensures
        r@ == "#808080"@,
{
    String::from_str("#808080")
}

pub fn default_prompt_panel_foreground_color() -> (r: String)
    ensures
        r@ == "#FFFFFF"@,
{
    String::from_str("#FFFFFF")
}

pub fn default_vim_mode() -> (r: bool)
    ensures
        r == false,
{
    false
}

pub fn default_background_color() -> (r: String)
    ensures
        r@ == "#000000"@,
{
    String::from_str("#000000")
}

impl Default for Frame {
    fn default() -> (r: Self)
        ensures
            r.corner@ == "plain"@,
            r.margin == 0,
            r.color@ == "#0000FF"@,
            r.hide == false,
    {
        Frame {
            corner: default_frame_corner(),
            margin: default_margin(),
            color: default_frame_color(),
            hide: default_frame_hide(),
        }
    }
}

impl Default for LineNumbers {
    fn default() -> (r: Self)
        ensures
            r.enabled == true,
            r.color@ == "#808080"@,
            r.gutter_width == 5,
            r.show_separator_line == false,
    {
        LineNumbers {
            enabled: default_line_numbers_enabled(),
            color: default_line_numbers_color(),
            gutter_width: default_line_numbers_gutter_width(),
            show_separator_line: default_line_numbers_show_separator_line(),
        }
    }
}

impl Default for StatusPanel {
    fn default() -> (r: Self)
        ensures
            r.enabled == true,
            r.background_color@ == "#0000FF"@,
            r.foreground_color@ == "#FFFFFF"@,
    {
        StatusPanel {
            enabled: default_status_panel_enabled(),
            background_color: default_status_panel_background_color(),
            foreground_color: default_status_panel_foreground_color(),
        }
    }
}

impl Default for PromptPanel {
    fn default() -> (r: Self)
        ensures
            r.enabled == true,
            r.background_color@ == "#808080"@,
            r.foreground_color@ == "#FFFFFF"@,
    {
        PromptPanel {
            enabled: default_prompt_panel_enabled(),
            background_color: default_prompt_panel_background_color(),
            foreground_color: default_prompt_panel_foreground_color(),
        }
    }
}

impl Default for MainSection {
    fn default() -> (r: Self)
        ensures
            r.background_color@ == "#000000"@,
            r.frame.hide == false,
            r.line_numbers.enabled == true,
            r.line_numbers.gutter_width == 5,
            r.status_panel.enabled == true,
            r.prompt_panel.enabled == true,
    {
        MainSection {
            background_color: default_background_color(),
            frame: Frame::default(),
            line_numbers: LineNumbers::default(),
            status_panel: StatusPanel::default(),
            prompt_panel: PromptPanel::default(),
        }
    }
}

impl Default for EditorBehavior {
    fn default() -> (r: Self)
        ensures
            r.vim == false,
    {
        EditorBehavior { vim: default_vim_mode() }
    }
}

impl Default for Config {
    fn default() -> (r: Self)
        ensures
            r.editor_behavior.vim == false,
            r.main_section.line_numbers.enabled == true,
            r.main_section.line_numbers.gutter_width == 5,
            r.main_section.status_panel.enabled == true,
            r.main_section.prompt_panel.enabled == true,
    {
        Config {
            main_section: MainSection::default(),
            editor_behavior: EditorBehavior::default(),
        }
    }
}

} // verus!
