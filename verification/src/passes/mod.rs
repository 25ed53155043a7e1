pub mod no_type_params;
