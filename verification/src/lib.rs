//! Kubeconfig editing.

pub mod account_laws;
pub mod addresses;
pub mod ca_laws;
pub mod certs;
pub mod cloud;
pub mod cloud_laws;
pub mod clusters_view;
pub mod commands;
pub mod conntest;
pub mod conntest_laws;
pub mod consent;
pub mod credential_laws;
pub mod credentials;
pub mod dialogs;
pub mod document;
pub mod edit_laws;
pub mod editor;
pub mod editor_view;
pub mod edits;
pub mod exec;
pub mod fields;
pub mod file_laws;
pub mod files;
pub mod form_laws;
pub mod form_view;
pub mod forms;
pub mod import;
pub mod issue_laws;
pub mod issues;
pub mod json;
pub mod json_text;
pub mod laws;
pub mod location_laws;
pub mod locations;
pub mod manifests;
pub mod masking_laws;
pub mod model;
pub mod moves;
pub mod names;
pub mod openshift_sign_in;
pub mod outside;
pub mod panel;
pub mod paste;
pub mod paths;
pub mod pem;
pub mod problem_laws;
pub mod report;
pub mod sa_dialog;
pub mod schema;
pub mod session_laws;
pub mod settings;
pub mod shape_laws;
pub mod sign_in;
pub mod state;
pub mod switcher;
pub mod table;
pub mod test_run;
pub mod text;
pub mod text_laws;
pub mod tls;
pub mod transfer;
pub mod transfer_laws;
pub mod users;
pub mod validate;
pub mod value;
pub mod view_laws;
pub mod watches;
pub mod widgets;
