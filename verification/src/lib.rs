//! Core of a turn-based chat front-end to a local language model: the
//! conversation data model, the prompt compiler that frames the dialogue as a
//! single text prompt, and the streaming reducer that folds generated tokens
//! into a finished assistant reply by watching for the next speaker's marker.
pub mod compiler;
pub mod reducer;
pub mod service;
pub mod conversation;
pub mod text;
