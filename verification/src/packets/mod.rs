//! The TL objects exchanged while creating an authorization key.
pub mod req_pq_multi;
pub mod res_pq;
pub mod p_q_inner_data;
pub mod req_dh_params;
pub mod server_dh_params_ok;
pub mod server_dh_inner_data;
pub mod client_dh_inner_data;
pub mod set_client_dh_params;
pub mod dh_gen_ok;
