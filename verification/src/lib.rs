pub mod asset_manager;
pub mod components;
pub mod editor;
pub mod entity;
pub mod error;
pub mod game_controller;
pub mod game_loop;
pub mod gui;
pub mod light;
pub mod registry;
pub mod resource;
pub mod scene_loader;
pub mod seq_facts;
pub mod systems;
pub mod window;
pub mod world;
