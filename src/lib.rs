//! Converts password-manager export records from the Zoho Vault column layout
//! into the Proton Pass column layout.

pub mod text;
pub mod record;
pub mod decode;
pub mod table;
pub mod batch;
pub mod args;
pub mod laws;
