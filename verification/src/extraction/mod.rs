pub mod calls;
pub mod literals;
pub mod member_access;
pub mod template_literals;
