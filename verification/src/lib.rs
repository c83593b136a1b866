//! The core of a small code editor: text buffers with many carets, one-line
//! fields, fuzzy file search, key bindings, dialogs and the decisions that the
//! terminal and window front ends act on.

pub mod app;
pub mod buffer;
pub mod chars;
pub mod clock;
pub mod color;
pub mod config;
pub mod dialog;
pub mod editline;
pub mod fieldlaws;
pub mod filedialog;
pub mod find;
pub mod fonts;
pub mod fstree;
pub mod fuzzy;
pub mod gitstatus;
pub mod gui;
pub mod highlight;
pub mod hitlaws;
pub mod hits;
pub mod icons;
pub mod input;
pub mod instances;
pub mod keyevent;
pub mod keys;
pub mod lines;
pub mod mode;
pub mod paths;
pub mod prompt;
pub mod ranking;
pub mod recent;
pub mod requests;
pub mod rope;
pub mod search;
pub mod settings;
pub mod sorting;
pub mod steps;
pub mod strings;
pub mod tablaws;
pub mod tabs;
pub mod terminals;
pub mod text;
pub mod textlaws;
pub mod toast;
pub mod tomltable;
pub mod treelaws;
