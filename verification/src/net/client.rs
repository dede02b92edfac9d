pub mod ws_conn;
pub mod ws_msg;
