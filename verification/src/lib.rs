pub mod assoc;
pub mod button;
pub mod calibration;
pub mod capture;
pub mod combo;
pub mod config;
pub mod container;
pub mod ctl;
pub mod daemon;
pub mod devices;
pub mod dto;
pub mod engine;
pub mod error;
pub mod event;
pub mod files;
pub mod gui;
pub mod gui_state;
pub mod key;
pub mod locale;
pub mod modifier;
pub mod node;
pub mod order;
pub mod ports;
pub mod profile;
pub mod refcount;
pub mod services;
pub mod session;
pub mod slots;
pub mod testing;
pub mod text;
pub mod translation;
pub mod translator;
pub mod use_cases;
