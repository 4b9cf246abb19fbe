//! Decision logic of a course-enrollment assistant: the upstream
//! allow-list and request planning of its CORS proxy, the enrollment
//! scheduler, and the classification of server replies and status lines.

pub mod text;
pub mod status;
pub mod enroll;
pub mod upstream;
pub mod form;
pub mod forward;
pub mod fallback;
pub mod state;
pub mod toast;
pub mod console;
